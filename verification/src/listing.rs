//! The output of a test binary's listing mode, and what it is parsed into.
//!
//! A binary run with `--list --format terse` prints one line per item:
//! `<name>: test` for a test and `<name>: benchmark` for a benchmark. Lines
//! end in `\n` or `\r\n`; the last line may lack its ending.

use crate::errors::ParseTestListError;
use crate::name_map::insert_name;
use crate::name_map::lemma_insert_name;
use crate::name_map::lemma_sorted_no_duplicates;
use crate::name_map::strictly_sorted;
use crate::name_map::NameMap;
use crate::text::chars_of;
use crate::text::string_of_range;
use crate::text::views;
use vstd::prelude::*;

verus! {

/// What ends the line of a test.
pub open spec fn test_suffix() -> Seq<char> {
    ": test"@
}

/// What ends the line of a benchmark.
pub open spec fn benchmark_suffix() -> Seq<char> {
    ": benchmark"@
}

/// Whether `line` ends in `suffix`.
pub open spec fn ends_with(line: Seq<char>, suffix: Seq<char>) -> bool {
    line.len() >= suffix.len() && line.skip(line.len() - suffix.len()) == suffix
}

/// A line that lists a benchmark: such lines are passed over.
pub open spec fn is_benchmark_line(line: Seq<char>) -> bool {
    ends_with(line, benchmark_suffix())
}

/// A line that lists a test.
pub open spec fn is_test_line(line: Seq<char>) -> bool {
    !is_benchmark_line(line) && ends_with(line, test_suffix())
}

/// A line that lists neither a test nor a benchmark.
pub open spec fn is_malformed_line(line: Seq<char>) -> bool {
    !is_benchmark_line(line) && !ends_with(line, test_suffix())
}

/// The name that a test's line lists: the line without its suffix.
pub open spec fn test_name_of(line: Seq<char>) -> Seq<char> {
    line.take(line.len() - test_suffix().len())
}

/// The index of the first `\n` in `s`, or the length of `s` if it has none.
pub open spec fn first_newline(s: Seq<char>) -> int
    decreases s.len(),
{
    if s.len() == 0 || s[0] == '\n' {
        0
    } else {
        1 + first_newline(s.drop_first())
    }
}

/// `line` without one `\r` at its end, if it has one there.
pub open spec fn strip_cr(line: Seq<char>) -> Seq<char> {
    if line.len() > 0 && line.last() == '\r' {
        line.drop_last()
    } else {
        line
    }
}

/// The position of the first `\n` lies within the text.
pub proof fn lemma_first_newline_bounds(s: Seq<char>)
    ensures
        0 <= first_newline(s) <= s.len(),
        first_newline(s) < s.len() ==> s[first_newline(s)] == '\n',
        forall|j: int| 0 <= j < first_newline(s) ==> s[j] != '\n',
    decreases s.len(),
{
    if s.len() != 0 && s[0] != '\n' {
        let rest = s.drop_first();
        lemma_first_newline_bounds(rest);
        assert forall|j: int| 0 <= j < first_newline(s) implies s[j] != '\n' by {
            if j > 0 {
                assert(s[j] == rest[j - 1]);
            }
        }
    }
}

/// A position before which no `\n` stands, and which holds one or is the end
/// of the text, is the position of the first `\n`.
pub proof fn lemma_first_newline_at(s: Seq<char>, n: int)
    requires
        0 <= n <= s.len(),
        forall|j: int| 0 <= j < n ==> s[j] != '\n',
        n < s.len() ==> s[n] == '\n',
    ensures
        first_newline(s) == n,
    decreases s.len(),
{
    if n > 0 {
        let rest = s.drop_first();
        assert forall|j: int| 0 <= j < n - 1 implies rest[j] != '\n' by {
            assert(rest[j] == s[j + 1]);
        }
        lemma_first_newline_at(rest, n - 1);
    }
}

/// The lines of `s`: the pieces between line endings, without the endings.
/// A text that ends in a line ending has the same lines as without it.
pub open spec fn lines(s: Seq<char>) -> Seq<Seq<char>>
    decreases s.len(),
{
    if s.len() == 0 {
        Seq::empty()
    } else {
        let n = first_newline(s);
        if n >= s.len() {
            seq![s]
        } else {
            proof {
                lemma_first_newline_bounds(s);
            }
            seq![strip_cr(s.take(n))] + lines(s.skip(n + 1))
        }
    }
}

/// The first line that lists neither a test nor a benchmark, if there is one.
pub open spec fn first_malformed(ls: Seq<Seq<char>>) -> Option<Seq<char>>
    decreases ls.len(),
{
    if ls.len() == 0 {
        None
    } else if is_malformed_line(ls[0]) {
        Some(ls[0])
    } else {
        first_malformed(ls.drop_first())
    }
}

/// The names of the tests that `ls` lists, each once, in the order of
/// strings.
pub open spec fn collect_names(ls: Seq<Seq<char>>) -> Seq<Seq<char>>
    decreases ls.len(),
{
    if ls.len() == 0 {
        Seq::empty()
    } else {
        let rest = collect_names(ls.drop_last());
        if is_test_line(ls.last()) {
            insert_name(rest, test_name_of(ls.last()))
        } else {
            rest
        }
    }
}

/// What a listing is parsed into: the sorted names of its tests, or its
/// first malformed line.
pub open spec fn parse_result(output: Seq<char>) -> Result<Seq<Seq<char>>, Seq<char>> {
    match first_malformed(lines(output)) {
        Some(line) => Err(line),
        None => Ok(collect_names(lines(output))),
    }
}

/// Well-formed lines in front do not change which line is the first
/// malformed one.
pub proof fn lemma_first_malformed_after(a: Seq<Seq<char>>, b: Seq<Seq<char>>)
    requires
        first_malformed(a) is None,
    ensures
        first_malformed(a + b) == first_malformed(b),
    decreases a.len(),
{
    if a.len() == 0 {
        assert(a + b == b);
    } else {
        assert((a + b).drop_first() == a.drop_first() + b);
        lemma_first_malformed_after(a.drop_first(), b);
    }
}

/// The first malformed line is a malformed line of the listing, and no line
/// before it is malformed; there is none only if no line is malformed.
pub proof fn lemma_first_malformed(ls: Seq<Seq<char>>)
    ensures
        match first_malformed(ls) {
            Some(line) => exists|k: int|
                0 <= k < ls.len() && ls[k] == line && is_malformed_line(line) && forall|i: int|
                    0 <= i < k ==> !is_malformed_line(#[trigger] ls[i]),
            None => forall|i: int| 0 <= i < ls.len() ==> !is_malformed_line(#[trigger] ls[i]),
        },
    decreases ls.len(),
{
    if ls.len() != 0 {
        if is_malformed_line(ls[0]) {
            assert(ls[0] == ls[0] && forall|i: int|
                0 <= i < 0 ==> !is_malformed_line(#[trigger] ls[i]));
        } else {
            let rest = ls.drop_first();
            lemma_first_malformed(rest);
            match first_malformed(rest) {
                Some(line) => {
                    let k = choose|k: int|
                        0 <= k < rest.len() && rest[k] == line && is_malformed_line(line)
                            && forall|i: int|
                            0 <= i < k ==> !is_malformed_line(#[trigger] rest[i]);
                    assert forall|i: int| 0 <= i < k + 1 implies !is_malformed_line(
                        #[trigger] ls[i],
                    ) by {
                        if i > 0 {
                            assert(ls[i] == rest[i - 1]);
                        }
                    }
                    assert(ls[k + 1] == line);
                },
                None => {
                    assert forall|i: int| 0 <= i < ls.len() implies !is_malformed_line(
                        #[trigger] ls[i],
                    ) by {
                        if i > 0 {
                            assert(ls[i] == rest[i - 1]);
                        }
                    }
                },
            }
        }
    }
}

/// The collected names are strictly sorted, so none occurs twice, and they
/// are the names of the test lines and no others: in particular no name
/// comes from the line of a benchmark.
pub proof fn lemma_collect_names(ls: Seq<Seq<char>>)
    ensures
        strictly_sorted(collect_names(ls)),
        collect_names(ls).no_duplicates(),
        forall|name: Seq<char>|
            collect_names(ls).contains(name) <==> exists|i: int|
                0 <= i < ls.len() && is_test_line(#[trigger] ls[i]) && test_name_of(ls[i]) == name,
    decreases ls.len(),
{
    if ls.len() != 0 {
        let init = ls.drop_last();
        let rest = collect_names(init);
        let last = ls.last();
        lemma_collect_names(init);
        lemma_insert_name(rest, test_name_of(last));
        assert forall|name: Seq<char>| collect_names(ls).contains(name) implies exists|i: int|
            0 <= i < ls.len() && is_test_line(#[trigger] ls[i]) && test_name_of(ls[i])
                == name by {
            if rest.contains(name) {
                let i = choose|i: int|
                    0 <= i < init.len() && is_test_line(#[trigger] init[i]) && test_name_of(
                        init[i],
                    ) == name;
                assert(ls[i] == init[i]);
            } else {
                assert(is_test_line(ls[ls.len() - 1]));
            }
        }
        assert forall|name: Seq<char>|
            (exists|i: int|
                0 <= i < ls.len() && is_test_line(#[trigger] ls[i]) && test_name_of(ls[i])
                    == name) implies collect_names(ls).contains(name) by {
            let i = choose|i: int|
                0 <= i < ls.len() && is_test_line(#[trigger] ls[i]) && test_name_of(ls[i])
                    == name;
            if i < init.len() {
                assert(init[i] == ls[i]);
                assert(rest.contains(name));
            }
        }
    }
    lemma_sorted_no_duplicates(collect_names(ls));
}

/// Whether the characters `text[from..to]` end in `suffix`.
fn range_ends_with(text: &Vec<char>, from: usize, to: usize, suffix: &Vec<char>) -> (r: bool)
    requires
        from <= to <= text.len(),
    ensures
        r == ends_with(text@.subrange(from as int, to as int), suffix@),
{
    let n = suffix.len();
    if to - from < n {
        return false;
    }
    let base = to - n;
    let ghost line = text@.subrange(from as int, to as int);
    let ghost tail = line.skip(line.len() - n);
    let mut i: usize = 0;
    while i < n
        invariant
            i <= n,
            n == suffix.len(),
            base + n == to,
            from <= base,
            to <= text.len(),
            line == text@.subrange(from as int, to as int),
            tail == line.skip(line.len() - n),
            forall|j: int| 0 <= j < i ==> tail[j] == suffix@[j],
        decreases n - i,
    {
        assert(tail[i as int] == text@[base + i]);
        if text[base + i] != suffix[i] {
            return false;
        }
        i = i + 1;
    }
    assert(tail =~= suffix@);
    true
}

/// Parses the output of a listing into the names of the tests it lists:
/// sorted, each once. Lines of benchmarks are passed over. A line that is
/// neither fails the whole listing; the error holds the first such line and
/// the output as it was given.
pub fn parse(list_output: &str) -> (r: Result<Vec<String>, ParseTestListError>)
    ensures
        match r {
            Ok(names) => {
                &&& parse_result(list_output@) == Ok::<Seq<Seq<char>>, Seq<char>>(views(names@))
                &&& strictly_sorted(views(names@))
                &&& views(names@).no_duplicates()
                &&& forall|name: Seq<char>|
                    views(names@).contains(name) <==> exists|i: int|
                        0 <= i < lines(list_output@).len() && is_test_line(
                            #[trigger] lines(list_output@)[i],
                        ) && test_name_of(lines(list_output@)[i]) == name
            },
            Err(ParseTestListError::ParseLine { line, full_output }) => {
                &&& parse_result(list_output@) == Err::<Seq<Seq<char>>, Seq<char>>(line@)
                &&& full_output@ == list_output@
            },
            Err(_) => false,
        },
{
    let text = chars_of(list_output);
    let test_sfx = chars_of(": test");
    let bench_sfx = chars_of(": benchmark");
    let mut names: NameMap<()> = NameMap::new();
    let ghost mut done: Seq<Seq<char>> = Seq::empty();
    let mut start: usize = 0;
    assert(text@.skip(0) == text@);
    while start < text.len()
        invariant
            start <= text.len(),
            text@ == list_output@,
            test_sfx@ == test_suffix(),
            bench_sfx@ == benchmark_suffix(),
            lines(text@) == done + lines(text@.skip(start as int)),
            first_malformed(done) is None,
            names.keys() == collect_names(done),
        decreases text.len() - start,
    {
        let mut end: usize = start;
        while end < text.len() && text[end] != '\n'
            invariant
                start <= end <= text.len(),
                forall|j: int| start <= j < end ==> text@[j] != '\n',
            decreases text.len() - end,
        {
            end = end + 1;
        }
        let terminated = end < text.len();
        let stop = if terminated && end > start && text[end - 1] == '\r' {
            end - 1
        } else {
            end
        };
        let next = if terminated {
            end + 1
        } else {
            end
        };
        let ghost line = text@.subrange(start as int, stop as int);
        let ghost rest = lines(text@.skip(next as int));
        proof {
            let s = text@.skip(start as int);
            lemma_first_newline_at(s, end - start);
            if terminated {
                assert(s.take(end - start) == text@.subrange(start as int, end as int));
                assert(strip_cr(text@.subrange(start as int, end as int)) == line);
                assert(s.skip(end - start + 1) == text@.skip(next as int));
            } else {
                assert(s == line);
                assert(text@.skip(next as int).len() == 0);
            }
            assert(lines(s) == seq![line] + rest);
            assert(done + (seq![line] + rest) == done.push(line) + rest);
        }
        if range_ends_with(&text, start, stop, &bench_sfx) {
        } else if range_ends_with(&text, start, stop, &test_sfx) {
            let name = string_of_range(&text, start, stop - test_sfx.len());
            assert(name@ == test_name_of(line));
            names.insert(name, ());
        } else {
            let bad = string_of_range(&text, start, stop);
            proof {
                lemma_first_malformed_after(done, seq![line] + rest);
            }
            return Err(
                ParseTestListError::ParseLine { line: bad, full_output: list_output.to_owned() },
            );
        }
        proof {
            assert(done.push(line).drop_last() == done);
            assert(!is_malformed_line(line));
            assert(seq![line].drop_first() == Seq::<Seq<char>>::empty());
            assert(first_malformed(seq![line].drop_first()) is None);
            assert(first_malformed(seq![line]) is None);
            lemma_first_malformed_after(done, seq![line]);
            assert(done + seq![line] == done.push(line));
            done = done.push(line);
        }
        start = next;
    }
    proof {
        assert(done + Seq::<Seq<char>>::empty() == done);
        lemma_collect_names(done);
        lemma_sorted_no_duplicates(collect_names(done));
    }
    Ok(names.key_list())
}

} // verus!
