use nextest_runner::filter::Partition;
use nextest_runner::filter::RunIgnored;
use nextest_runner::filter::TestFilterBuilder;
use nextest_runner::metadata::FilterMatch;
use nextest_runner::metadata::MismatchReason;
use nextest_runner::name_map::NameMap;
use nextest_runner::text::str_less;
use nextest_runner::text::str_same;

fn mismatch(reason: MismatchReason) -> FilterMatch {
    FilterMatch::Mismatch { reason }
}

#[test]
fn ignored_tests_are_set_aside_unless_asked_for() {
    let mut default = TestFilterBuilder::any(RunIgnored::Default).build();
    assert_eq!(default.filter_match("t", false), FilterMatch::Matches);
    assert_eq!(default.filter_match("t", true), mismatch(MismatchReason::Ignored));
    let mut only = TestFilterBuilder::any(RunIgnored::IgnoredOnly).build();
    assert_eq!(only.filter_match("t", false), mismatch(MismatchReason::Ignored));
    assert_eq!(only.filter_match("t", true), FilterMatch::Matches);
    let mut all = TestFilterBuilder::any(RunIgnored::All).build();
    assert_eq!(all.filter_match("t", false), FilterMatch::Matches);
    assert_eq!(all.filter_match("t", true), FilterMatch::Matches);
}

#[test]
fn a_name_must_hold_one_of_the_patterns() {
    let builder =
        TestFilterBuilder::new(RunIgnored::Default, None, vec!["foo".to_owned(), "::bar".to_owned()]);
    let mut filter = builder.build();
    assert_eq!(filter.filter_match("tests::foo_works", false), FilterMatch::Matches);
    assert_eq!(filter.filter_match("tests::bar", false), FilterMatch::Matches);
    assert_eq!(filter.filter_match("bar", false), mismatch(MismatchReason::String));
    assert_eq!(filter.filter_match("fo", false), mismatch(MismatchReason::String));
    assert_eq!(filter.filter_match("", false), mismatch(MismatchReason::String));
    assert_eq!(filter.filter_match("foo", true), mismatch(MismatchReason::Ignored));
    let mut empty_pattern =
        TestFilterBuilder::new(RunIgnored::Default, None, vec![String::new()]).build();
    assert_eq!(empty_pattern.filter_match("", false), FilterMatch::Matches);
    assert_eq!(empty_pattern.filter_match("anything", false), FilterMatch::Matches);
}

#[test]
fn a_partition_takes_every_nth_test_that_passes_the_other_rules() {
    let builder =
        TestFilterBuilder::new(RunIgnored::Default, Partition::new(2, 3), vec!["t".to_owned()]);
    let mut filter = builder.build();
    let partition = mismatch(MismatchReason::Partition);
    assert_eq!(filter.filter_match("t0", false), partition);
    assert_eq!(filter.filter_match("skipped", true), mismatch(MismatchReason::Ignored));
    assert_eq!(filter.filter_match("none", false), mismatch(MismatchReason::String));
    assert_eq!(filter.filter_match("t1", false), FilterMatch::Matches);
    assert_eq!(filter.filter_match("t2", false), partition);
    assert_eq!(filter.filter_match("t3", false), partition);
    assert_eq!(filter.filter_match("t4", false), FilterMatch::Matches);
    // A filter built anew has counted nothing.
    let mut fresh = builder.build();
    assert_eq!(fresh.filter_match("t5", false), partition);
}

#[test]
fn a_partition_names_a_shard_among_the_shards() {
    assert_eq!(Partition::new(0, 3), None);
    assert_eq!(Partition::new(4, 3), None);
    assert_eq!(Partition::new(1, 0), None);
    let last = Partition::new(3, 3).expect("a shard among the shards");
    assert_eq!(last.shard(), 3);
    assert_eq!(last.total_shards(), 3);
    let mut filter = TestFilterBuilder::new(RunIgnored::Default, Some(last), vec![]).build();
    assert_eq!(filter.filter_match("a", false), mismatch(MismatchReason::Partition));
    assert_eq!(filter.filter_match("b", false), mismatch(MismatchReason::Partition));
    assert_eq!(filter.filter_match("c", false), FilterMatch::Matches);
    let mut single =
        TestFilterBuilder::new(RunIgnored::Default, Partition::new(1, 1), vec![]).build();
    assert_eq!(single.filter_match("a", false), FilterMatch::Matches);
    assert_eq!(single.filter_match("b", false), FilterMatch::Matches);
}

#[test]
fn a_verdict_is_a_match_or_not() {
    assert!(FilterMatch::Matches.is_match());
    assert!(!mismatch(MismatchReason::Ignored).is_match());
    assert!(!mismatch(MismatchReason::String).is_match());
    assert!(!mismatch(MismatchReason::Partition).is_match());
}

#[test]
fn strings_are_ordered_by_their_bytes() {
    assert!(str_less("a", "b"));
    assert!(!str_less("b", "a"));
    assert!(!str_less("a", "a"));
    assert!(str_less("", "a"));
    assert!(str_less("a", "ab"));
    assert!(str_less("Z", "a"));
    assert!(str_less("a::b", "a_b"));
    assert!(str_less("z", "é"));
    assert!(str_same("é", "é"));
    assert!(!str_same("e", "é"));
    assert!(!str_same("a", "ab"));
}

#[test]
fn a_map_keeps_its_keys_in_order_and_the_last_value_of_each() {
    let mut map: NameMap<u32> = NameMap::new();
    assert_eq!(map.len(), 0);
    assert_eq!(map.get("b"), None);
    map.insert("b".to_owned(), 1);
    map.insert("a".to_owned(), 2);
    map.insert("c".to_owned(), 3);
    map.insert("b".to_owned(), 4);
    assert_eq!(map.len(), 3);
    assert_eq!(map.key_list(), vec!["a", "b", "c"]);
    assert_eq!(map.get("a"), Some(&2));
    assert_eq!(map.get("b"), Some(&4));
    assert_eq!(map.get("c"), Some(&3));
    assert_eq!(map.get("d"), None);
    assert_eq!(map.key_at(0), "a");
    assert_eq!(*map.value_at(1), 4);
    assert_eq!(map.find("b"), (1, true));
    assert_eq!(map.find("bb"), (2, false));
    assert_eq!(map.find(""), (0, false));
    assert_eq!(map.clone(), map);
}
