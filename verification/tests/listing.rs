use nextest_runner::errors::ParseTestListError;
use nextest_runner::listing::parse;

#[test]
fn parse_sorts_names_and_passes_over_benchmarks() {
    let names = parse("tests::b: test\nbench::x: benchmark\ntests::a: test\n").expect("well-formed");
    assert_eq!(names, vec!["tests::a".to_owned(), "tests::b".to_owned()]);
}

#[test]
fn parse_of_nothing_is_empty() {
    assert_eq!(parse("").expect("well-formed"), Vec::<String>::new());
}

#[test]
fn parse_keeps_each_name_once() {
    let names = parse("a: test\nb: test\na: test\n").expect("well-formed");
    assert_eq!(names, vec!["a".to_owned(), "b".to_owned()]);
}

#[test]
fn parse_fails_on_the_first_malformed_line() {
    let output = "a: test\ngarbage line\nmore garbage\n";
    let error = parse(output).expect_err("malformed");
    assert_eq!(
        error,
        ParseTestListError::ParseLine {
            line: "garbage line".to_owned(),
            full_output: output.to_owned(),
        }
    );
    assert_eq!(
        error.message(),
        Some("line 'garbage line' did not end with the string ': test' or ': benchmark'".to_owned())
    );
}

#[test]
fn parse_reads_both_line_endings_and_a_last_line_without_one() {
    let names = parse("b: test\r\na: test\nc: test").expect("well-formed");
    assert_eq!(names, vec!["a".to_owned(), "b".to_owned(), "c".to_owned()]);
}
