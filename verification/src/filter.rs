//! Which tests of a listing are to be run.
//!
//! A `TestFilterBuilder` holds the rules. Each pass over a listing consults
//! a `TestFilter` of its own, made by `build`: partitioning counts the tests
//! it is shown, and the count of one pass must not leak into another.

use crate::metadata::FilterMatch;
use crate::metadata::MismatchReason;
use crate::text::chars_of;
use crate::text::views;
use vstd::prelude::*;

verus! {

/// Which tests are run with respect to their being ignored.
#[derive(Clone, Copy, Debug, PartialEq, Eq, Structural)]
pub enum RunIgnored {
    /// Only tests that are not ignored.
    Default,
    /// Only tests that are ignored.
    IgnoredOnly,
    /// Both.
    All,
}

/// One shard of a run split by count: of the tests that pass the other
/// rules, taken in the order shown, those at positions `shard - 1`,
/// `shard - 1 + total_shards`, and so on.
#[derive(Clone, Copy, Debug, PartialEq, Eq)]
pub struct Partition {
    shard: u64,
    total_shards: u64,
}

impl Partition {
    #[verifier::type_invariant]
    spec fn in_range(&self) -> bool {
        1 <= self.shard <= self.total_shards
    }

    /// The number of this shard, from 1.
    pub closed spec fn shard_spec(&self) -> int {
        self.shard as int
    }

    /// The number of shards.
    pub closed spec fn total_spec(&self) -> int {
        self.total_shards as int
    }

    /// Shard `shard` of `total_shards`; none unless
    /// `1 <= shard <= total_shards`.
    pub fn new(shard: u64, total_shards: u64) -> (r: Option<Partition>)
        ensures
            r is Some <==> 1 <= shard <= total_shards,
            r matches Some(p) ==> p.shard_spec() == shard && p.total_spec() == total_shards,
    {
        if 1 <= shard && shard <= total_shards {
            Some(Partition { shard, total_shards })
        } else {
            None
        }
    }

    /// The number of this shard, from 1.
    pub fn shard(&self) -> (r: u64)
        ensures
            r == self.shard_spec(),
            1 <= r <= self.total_spec(),
    {
        proof {
            use_type_invariant(self);
        }
        self.shard
    }

    /// The number of shards.
    pub fn total_shards(&self) -> (r: u64)
        ensures
            r == self.total_spec(),
            1 <= self.shard_spec() <= r,
    {
        proof {
            use_type_invariant(self);
        }
        self.total_shards
    }
}

/// The rules of a filter, as plain values.
pub struct FilterRules {
    /// Which tests are run with respect to their being ignored.
    pub run_ignored: RunIgnored,
    /// The patterns: a name must hold one of them, unless there are none.
    pub patterns: Seq<Seq<char>>,
    /// The shard and the number of shards, if the run is split.
    pub partition: Option<(int, int)>,
}

/// Whether `pattern` occurs in `name` as a run of characters.
pub open spec fn holds_pattern(name: Seq<char>, pattern: Seq<char>) -> bool {
    exists|k: int|
        0 <= k && k + pattern.len() <= name.len() && #[trigger] name.subrange(
            k,
            k + pattern.len(),
        ) == pattern
}

/// Whether `name` holds one of `patterns`, or there are none.
pub open spec fn name_passes(patterns: Seq<Seq<char>>, name: Seq<char>) -> bool {
    patterns.len() == 0 || exists|i: int|
        0 <= i < patterns.len() && holds_pattern(name, #[trigger] patterns[i])
}

/// Whether a test is set aside for being ignored, or for not being so.
pub open spec fn ignored_mismatch(run_ignored: RunIgnored, ignored: bool) -> bool {
    match run_ignored {
        RunIgnored::Default => ignored,
        RunIgnored::IgnoredOnly => !ignored,
        RunIgnored::All => false,
    }
}

/// Whether a test gets as far as being counted for the partition.
pub open spec fn reaches_partition(rules: FilterRules, name: Seq<char>, ignored: bool) -> bool {
    !ignored_mismatch(rules.run_ignored, ignored) && name_passes(rules.patterns, name)
}

/// The verdict on a test for a filter that has counted `slot` tests, modulo
/// the number of shards, before it.
pub open spec fn verdict(rules: FilterRules, slot: int, name: Seq<char>, ignored: bool)
    -> FilterMatch {
    if ignored_mismatch(rules.run_ignored, ignored) {
        FilterMatch::Mismatch { reason: MismatchReason::Ignored }
    } else if !name_passes(rules.patterns, name) {
        FilterMatch::Mismatch { reason: MismatchReason::String }
    } else {
        match rules.partition {
            Some((shard, total)) => if slot == shard - 1 {
                FilterMatch::Matches
            } else {
                FilterMatch::Mismatch { reason: MismatchReason::Partition }
            },
            None => FilterMatch::Matches,
        }
    }
}

/// The count of the filter after the verdict on a test.
pub open spec fn next_slot(rules: FilterRules, slot: int, name: Seq<char>, ignored: bool) -> int {
    match rules.partition {
        Some((shard, total)) => if reaches_partition(rules, name, ignored) {
            (slot + 1) % total
        } else {
            slot
        },
        None => slot,
    }
}

/// The count of a fresh filter after it was shown `names` in order.
pub open spec fn slot_after(rules: FilterRules, names: Seq<Seq<char>>, ignored: bool) -> int
    decreases names.len(),
{
    if names.len() == 0 {
        0
    } else {
        next_slot(rules, slot_after(rules, names.drop_last(), ignored), names.last(), ignored)
    }
}

/// The verdict of a fresh filter on `names[i]`, after it was shown the names
/// before it in order.
pub open spec fn verdict_at(rules: FilterRules, names: Seq<Seq<char>>, i: int, ignored: bool)
    -> FilterMatch {
    verdict(rules, slot_after(rules, names.take(i), ignored), names[i], ignored)
}

/// The rules by which tests are chosen.
#[derive(Clone, Debug)]
pub struct TestFilterBuilder {
    run_ignored: RunIgnored,
    patterns: Vec<String>,
    partition: Option<Partition>,
}

impl View for TestFilterBuilder {
    type V = FilterRules;

    closed spec fn view(&self) -> FilterRules {
        FilterRules {
            run_ignored: self.run_ignored,
            patterns: views(self.patterns@),
            partition: match self.partition {
                Some(p) => Some((p.shard_spec(), p.total_spec())),
                None => None,
            },
        }
    }
}

/// One pass of a filter over the tests of a listing.
pub struct TestFilter {
    run_ignored: RunIgnored,
    patterns: Vec<Vec<char>>,
    partition: Option<Partition>,
    slot: u64,
}

/// The patterns of a filter at work, as plain values.
pub open spec fn pattern_views(patterns: Seq<Vec<char>>) -> Seq<Seq<char>> {
    patterns.map_values(|p: Vec<char>| p@)
}

impl TestFilterBuilder {
    /// A filter with the given rules. A test matches if it is not set aside
    /// for being ignored, its name holds one of `patterns` (or there are
    /// none), and it falls into `partition` (or there is none).
    pub fn new(run_ignored: RunIgnored, partition: Option<Partition>, patterns: Vec<String>) -> (b:
        Self)
        ensures
            b@.run_ignored == run_ignored,
            b@.patterns == views(patterns@),
            b@.partition == match partition {
                Some(p) => Some((p.shard_spec(), p.total_spec())),
                None => None,
            },
    {
        TestFilterBuilder { run_ignored, patterns, partition }
    }

    /// A filter that matches every test but for `run_ignored`.
    pub fn any(run_ignored: RunIgnored) -> (b: Self)
        ensures
            b@ == (FilterRules {
                run_ignored,
                patterns: Seq::<Seq<char>>::empty(),
                partition: None,
            }),
    {
        let b = TestFilterBuilder { run_ignored, patterns: Vec::new(), partition: None };
        assert(b@.patterns =~= Seq::<Seq<char>>::empty());
        b
    }

    /// A fresh filter for one pass: it has counted no test yet.
    pub fn build(&self) -> (f: TestFilter)
        ensures
            f.rules() == self@,
            f.slot() == 0,
    {
        let mut patterns: Vec<Vec<char>> = Vec::new();
        let mut i: usize = 0;
        while i < self.patterns.len()
            invariant
                i <= self.patterns.len(),
                patterns@.len() == i,
                pattern_views(patterns@) == views(self.patterns@).take(i as int),
            decreases self.patterns.len() - i,
        {
            let ghost before = patterns@;
            let p = chars_of(self.patterns[i].as_str());
            patterns.push(p);
            assert forall|j: int| 0 <= j < i + 1 implies pattern_views(patterns@)[j] == views(
                self.patterns@,
            )[j] by {
                if j < i {
                    assert(pattern_views(before)[j] == views(self.patterns@).take(i as int)[j]);
                }
            }
            assert(pattern_views(patterns@) =~= views(self.patterns@).take(i + 1));
            i = i + 1;
        }
        assert(views(self.patterns@).take(i as int) =~= views(self.patterns@));
        proof {
            if let Some(p) = self.partition {
                use_type_invariant(p);
            }
        }
        TestFilter { run_ignored: self.run_ignored, patterns, partition: self.partition, slot: 0 }
    }
}

/// Whether `pattern` stands in `name` at position `k`.
fn holds_pattern_at(name: &Vec<char>, k: usize, pattern: &Vec<char>) -> (r: bool)
    requires
        k + pattern.len() <= name.len(),
    ensures
        r == (name@.subrange(k as int, k + pattern.len()) == pattern@),
{
    let ghost part = name@.subrange(k as int, k + pattern.len());
    let mut j: usize = 0;
    while j < pattern.len()
        invariant
            j <= pattern.len(),
            k + pattern.len() <= name.len(),
            part == name@.subrange(k as int, k + pattern.len()),
            forall|t: int| 0 <= t < j ==> part[t] == pattern@[t],
        decreases pattern.len() - j,
    {
        assert(part[j as int] == name@[k + j]);
        if name[k + j] != pattern[j] {
            return false;
        }
        j = j + 1;
    }
    assert(part =~= pattern@);
    true
}

/// Whether `pattern` occurs in `name`.
fn name_holds_pattern(name: &Vec<char>, pattern: &Vec<char>) -> (r: bool)
    ensures
        r == holds_pattern(name@, pattern@),
{
    if pattern.len() > name.len() {
        return false;
    }
    let last = name.len() - pattern.len();
    let mut k: usize = 0;
    loop
        invariant
            k <= last,
            last + pattern.len() == name.len(),
            forall|t: int|
                0 <= t < k ==> #[trigger] name@.subrange(t, t + pattern.len()) != pattern@,
        decreases last - k,
    {
        if holds_pattern_at(name, k, pattern) {
            return true;
        }
        if k == last {
            return false;
        }
        k = k + 1;
    }
}

impl TestFilter {
    #[verifier::type_invariant]
    spec fn slot_in_range(&self) -> bool {
        match self.partition {
            Some(p) => 1 <= p.shard_spec() <= p.total_spec() && self.slot < p.total_spec(),
            None => true,
        }
    }

    /// The rules that this filter goes by.
    pub closed spec fn rules(&self) -> FilterRules {
        FilterRules {
            run_ignored: self.run_ignored,
            patterns: pattern_views(self.patterns@),
            partition: match self.partition {
                Some(p) => Some((p.shard_spec(), p.total_spec())),
                None => None,
            },
        }
    }

    /// How many tests this filter has counted for its partition, modulo the
    /// number of shards.
    pub closed spec fn slot(&self) -> int {
        self.slot as int
    }

    /// Whether `name` holds one of the patterns, or there are none.
    fn passes_patterns(&self, name: &str) -> (r: bool)
        ensures
            r == name_passes(self.rules().patterns, name@),
    {
        if self.patterns.len() == 0 {
            return true;
        }
        let chars = chars_of(name);
        let mut i: usize = 0;
        while i < self.patterns.len()
            invariant
                i <= self.patterns.len(),
                chars@ == name@,
                forall|t: int|
                    0 <= t < i ==> !holds_pattern(name@, #[trigger] pattern_views(self.patterns@)[t]),
            decreases self.patterns.len() - i,
        {
            assert(pattern_views(self.patterns@)[i as int] == self.patterns@[i as int]@);
            if name_holds_pattern(&chars, &self.patterns[i]) {
                return true;
            }
            i = i + 1;
        }
        false
    }

    /// The verdict on the test `test_name`, which is ignored or not as
    /// `ignored` says. A test that passes the other rules is counted for the
    /// partition.
    pub fn filter_match(&mut self, test_name: &str, ignored: bool) -> (r: FilterMatch)
        ensures
            r == verdict(old(self).rules(), old(self).slot(), test_name@, ignored),
            final(self).rules() == old(self).rules(),
            final(self).slot() == next_slot(
                old(self).rules(),
                old(self).slot(),
                test_name@,
                ignored,
            ),
    {
        proof {
            use_type_invariant(&*self);
        }
        let set_aside = match self.run_ignored {
            RunIgnored::Default => ignored,
            RunIgnored::IgnoredOnly => !ignored,
            RunIgnored::All => false,
        };
        if set_aside {
            return FilterMatch::Mismatch { reason: MismatchReason::Ignored };
        }
        if !self.passes_patterns(test_name) {
            return FilterMatch::Mismatch { reason: MismatchReason::String };
        }
        match self.partition {
            Some(p) => {
                let matches = self.slot == p.shard() - 1;
                let next = if self.slot + 1 == p.total_shards() {
                    0
                } else {
                    self.slot + 1
                };
                assert(next == (self.slot + 1) % p.total_spec()) by {
                    if self.slot + 1 < p.total_spec() {
                        vstd::arithmetic::div_mod::lemma_small_mod(
                            (self.slot + 1) as nat,
                            p.total_spec() as nat,
                        );
                    } else {
                        vstd::arithmetic::div_mod::lemma_mod_self_0(p.total_spec());
                    }
                }
                self.slot = next;
                if matches {
                    FilterMatch::Matches
                } else {
                    FilterMatch::Mismatch { reason: MismatchReason::Partition }
                }
            },
            None => FilterMatch::Matches,
        }
    }
}

} // verus!
