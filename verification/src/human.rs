//! The list of tests as text for people to read.
//!
//! Each binary is named on a line of its own, followed in verbose mode by
//! its path, its working directory and its platform; below it stand its
//! tests, indented, one to a line, those that will not run marked as
//! skipped. Pieces of the text can be wrapped in the escape sequences of a
//! terminal style; the styles are given as data.

use crate::metadata::build_platform_name;
use crate::metadata::FilterMatch;
use crate::metadata::RustTestCaseSummary;
use crate::suite::RustTestSuite;
use crate::suite::RustTestSuiteView;
use crate::test_list::TestList;
use crate::text::chars_of;
use crate::text::string_of_range;
use indent_write::io::IndentWriter;
use std::io::Write;
use vstd::prelude::*;
use vstd::string::StringExecFns;

verus! {

/// What is written before and after a piece of text to show it in a style
/// of the terminal.
#[derive(Debug, PartialEq, Eq)]
pub struct TextStyle {
    /// What is written before the text.
    pub prefix: String,
    /// What is written after the text.
    pub suffix: String,
}

/// A style as plain values.
pub struct TextStyleView {
    pub prefix: Seq<char>,
    pub suffix: Seq<char>,
}

impl View for TextStyle {
    type V = TextStyleView;

    open spec fn view(&self) -> TextStyleView {
        TextStyleView { prefix: self.prefix@, suffix: self.suffix@ }
    }
}

/// The styles of the pieces of a list of tests.
#[derive(Debug, PartialEq, Eq)]
pub struct Styles {
    /// The style of the identifier of a binary.
    pub binary_id: TextStyle,
    /// The style of the name of a test, without its module path.
    pub test_name: TextStyle,
    /// The style of the module path of a test.
    pub module: TextStyle,
    /// The style of the labels of verbose mode.
    pub field: TextStyle,
}

/// Styles as plain values.
pub struct StylesView {
    pub binary_id: TextStyleView,
    pub test_name: TextStyleView,
    pub module: TextStyleView,
    pub field: TextStyleView,
}

impl View for Styles {
    type V = StylesView;

    open spec fn view(&self) -> StylesView {
        StylesView {
            binary_id: self.binary_id@,
            test_name: self.test_name@,
            module: self.module@,
            field: self.field@,
        }
    }
}

/// The style that leaves text as it is.
pub open spec fn plain_style() -> TextStyleView {
    TextStyleView { prefix: Seq::empty(), suffix: Seq::empty() }
}

/// The styles that leave all text as it is.
pub open spec fn plain_styles() -> StylesView {
    StylesView {
        binary_id: plain_style(),
        test_name: plain_style(),
        module: plain_style(),
        field: plain_style(),
    }
}

impl TextStyle {
    /// The style that leaves text as it is.
    pub fn plain() -> (s: Self)
        ensures
            s@ == plain_style(),
    {
        TextStyle { prefix: String::new(), suffix: String::new() }
    }
}

impl Default for Styles {
    /// The styles that leave all text as it is.
    fn default() -> (s: Self)
        ensures
            s@ == plain_styles(),
    {
        Styles {
            binary_id: TextStyle::plain(),
            test_name: TextStyle::plain(),
            module: TextStyle::plain(),
            field: TextStyle::plain(),
        }
    }
}

/// `text` in `style`.
pub open spec fn styled(text: Seq<char>, style: TextStyleView) -> Seq<char> {
    style.prefix + text + style.suffix
}

/// Whether `::` stands in `name` at position `k`.
pub open spec fn separator_at(name: Seq<char>, k: int) -> bool {
    0 <= k && k + 2 <= name.len() && name[k] == ':' && name[k + 1] == ':'
}

/// The last position below `n` at which `::` stands in `name`, or -1.
pub open spec fn last_separator_below(name: Seq<char>, n: int) -> int
    decreases n,
{
    if n <= 0 {
        -1
    } else if separator_at(name, n - 1) {
        n - 1
    } else {
        last_separator_below(name, n - 1)
    }
}

/// The last position at which `::` stands in `name`, or -1.
pub open spec fn last_separator(name: Seq<char>) -> int {
    last_separator_below(name, name.len() as int)
}

/// The name of a test as it is shown: what stands before its last `::`,
/// and the `::`, as a module path; the rest as the name of the test.
pub open spec fn test_name_text(name: Seq<char>, styles: StylesView) -> Seq<char> {
    let k = last_separator(name);
    if k >= 0 {
        styled(name.take(k), styles.module) + styled("::"@, styles.module) + styled(
            name.skip(k + 2),
            styles.test_name,
        )
    } else {
        styled(name, styles.test_name)
    }
}

/// The line of one test.
pub open spec fn case_line(name: Seq<char>, case: RustTestCaseSummary, styles: StylesView) -> Seq<
    char,
> {
    test_name_text(name, styles) + (if case.filter_match == FilterMatch::Matches {
        Seq::<char>::empty()
    } else {
        " (skipped)"@
    }) + "\n"@
}

/// The lines of the first `n` tests of a suite.
pub open spec fn case_lines(
    names: Seq<Seq<char>>,
    cases: Seq<RustTestCaseSummary>,
    styles: StylesView,
    n: nat,
) -> Seq<char>
    decreases n,
{
    if n == 0 {
        Seq::empty()
    } else {
        case_lines(names, cases, styles, (n - 1) as nat) + case_line(
            names[n - 1],
            cases[n - 1],
            styles,
        )
    }
}

/// What stands below the head of a suite, before it is indented: its tests,
/// or a remark that it has none.
pub open spec fn suite_body(suite: RustTestSuiteView, styles: StylesView) -> Seq<char> {
    if suite.names.len() == 0 {
        "(no tests)\n"@
    } else {
        case_lines(suite.names, suite.cases, styles, suite.names.len())
    }
}

/// `text` from position `i` on with `indent` put in front of every line
/// that is not empty. `at_line_start` says whether position `i` begins a
/// line.
pub open spec fn indented_from(text: Seq<char>, indent: Seq<char>, i: int, at_line_start: bool)
    -> Seq<char>
    decreases text.len() - i,
{
    if i < 0 || i >= text.len() {
        Seq::empty()
    } else if text[i] == '\n' {
        seq!['\n'] + indented_from(text, indent, i + 1, true)
    } else if at_line_start {
        indent + seq![text[i]] + indented_from(text, indent, i + 1, false)
    } else {
        seq![text[i]] + indented_from(text, indent, i + 1, false)
    }
}

/// `text` with `indent` put in front of every line that is not empty.
pub open spec fn indented(text: Seq<char>, indent: Seq<char>) -> Seq<char> {
    indented_from(text, indent, 0, true)
}

/// The head of a suite: the identifier of the binary, and in verbose mode
/// its path, working directory and platform.
pub open spec fn suite_head(
    path: Seq<char>,
    suite: RustTestSuiteView,
    verbose: bool,
    styles: StylesView,
) -> Seq<char> {
    styled(suite.binary_id, styles.binary_id) + ":\n"@ + (if verbose {
        "  "@ + styled("bin:"@, styles.field) + " "@ + path + "\n"@ + "  "@ + styled(
            "cwd:"@,
            styles.field,
        ) + " "@ + suite.cwd + "\n"@ + "  "@ + styled("build platform:"@, styles.field) + " "@
            + build_platform_name(suite.build_platform) + "\n"@
    } else {
        Seq::<char>::empty()
    })
}

/// The text of one suite.
pub open spec fn suite_text(
    path: Seq<char>,
    suite: RustTestSuiteView,
    verbose: bool,
    styles: StylesView,
) -> Seq<char> {
    suite_head(path, suite, verbose, styles) + indented(suite_body(suite, styles), "    "@)
}

/// The text of the first `n` suites.
pub open spec fn human_text(
    paths: Seq<Seq<char>>,
    suites: Seq<RustTestSuiteView>,
    verbose: bool,
    styles: StylesView,
    n: nat,
) -> Seq<char>
    decreases n,
{
    if n == 0 {
        Seq::empty()
    } else {
        human_text(paths, suites, verbose, styles, (n - 1) as nat) + suite_text(
            paths[n - 1],
            suites[n - 1],
            verbose,
            styles,
        )
    }
}

/// Writes `text` through an `IndentWriter` of `indent_write` made with
/// `indent`, into memory, and hands back what arrived there. The contract
/// says what the writer does: it passes line endings on, and puts `indent`
/// before the first character of every line that has one.
#[verifier::external_body]
fn indent_block(indent: &str, text: &str) -> (out: String)
    ensures
        out@ == indented(text@, indent@),
{
    let mut writer = IndentWriter::new(indent, Vec::new());
    let _ = writer.write_all(text.as_bytes());
    String::from_utf8(writer.into_inner()).unwrap_or_default()
}

/// Appends `text` in `style` to `out`.
fn push_styled(out: &mut String, text: &str, style: &TextStyle)
    ensures
        final(out)@ == old(out)@ + styled(text@, style@),
{
    let ghost before = out@;
    out.append(style.prefix.as_str());
    out.append(text);
    out.append(style.suffix.as_str());
    assert(out@ =~= before + styled(text@, style@));
}

/// The last position at which `::` stands in `name`, if it stands
/// anywhere.
fn find_last_separator(name: &Vec<char>) -> (r: Option<usize>)
    ensures
        match r {
            Some(k) => k == last_separator(name@) && k + 2 <= name@.len(),
            None => last_separator(name@) == -1,
        },
{
    let mut n: usize = name.len();
    while n > 0
        invariant
            n <= name.len(),
            last_separator(name@) == last_separator_below(name@, n as int),
        decreases n,
    {
        if n < name.len() && name[n - 1] == ':' && name[n] == ':' {
            return Some(n - 1);
        }
        n = n - 1;
    }
    None
}

/// Appends the name of a test to `out` as it is shown.
fn push_test_name(out: &mut String, name: &str, styles: &Styles)
    ensures
        final(out)@ == old(out)@ + test_name_text(name@, styles@),
{
    let ghost before = out@;
    let chars = chars_of(name);
    match find_last_separator(&chars) {
        Some(k) => {
            let prefix = string_of_range(&chars, 0, k);
            let rest = string_of_range(&chars, k + 2, chars.len());
            push_styled(out, prefix.as_str(), &styles.module);
            push_styled(out, "::", &styles.module);
            push_styled(out, rest.as_str(), &styles.test_name);
            assert(chars@.subrange(0, k as int) == name@.take(k as int));
            assert(chars@.subrange(k + 2, chars.len() as int) == name@.skip(k + 2));
            assert(out@ =~= before + test_name_text(name@, styles@));
        },
        None => {
            push_styled(out, name, &styles.test_name);
        },
    }
}

impl RustTestSuite {
    /// What stands below the head of the suite, before it is indented.
    fn body_text(&self, styles: &Styles) -> (out: String)
        ensures
            out@ == suite_body(self@, styles@),
    {
        let n = self.testcases.len();
        if n == 0 {
            return String::from_str("(no tests)\n");
        }
        let mut out = String::new();
        let mut j: usize = 0;
        while j < n
            invariant
                j <= n,
                n == self.testcases.keys().len(),
                n == self@.names.len(),
                out@ == case_lines(self@.names, self@.cases, styles@, j as nat),
            decreases n - j,
        {
            let ghost before = out@;
            let name = self.testcases.key_at(j);
            let case = self.testcases.value_at(j);
            push_test_name(&mut out, name.as_str(), styles);
            if !case.filter_match.is_match() {
                out.append(" (skipped)");
            }
            out.append("\n");
            assert(out@ =~= before + case_line(self@.names[j as int], self@.cases[j as int], styles@));
            j = j + 1;
        }
        out
    }

    /// The text of the suite of the binary at `path`.
    pub fn write_human(&self, path: &str, verbose: bool, styles: &Styles) -> (out: String)
        ensures
            out@ == suite_text(path@, self@, verbose, styles@),
    {
        let mut out = String::new();
        push_styled(&mut out, self.binary_id.as_str(), &styles.binary_id);
        out.append(":\n");
        if verbose {
            out.append("  ");
            push_styled(&mut out, "bin:", &styles.field);
            out.append(" ");
            out.append(path);
            out.append("\n");
            out.append("  ");
            push_styled(&mut out, "cwd:", &styles.field);
            out.append(" ");
            out.append(self.cwd.as_str());
            out.append("\n");
            out.append("  ");
            push_styled(&mut out, "build platform:", &styles.field);
            out.append(" ");
            out.append(self.build_platform.as_str());
            out.append("\n");
        }
        assert(out@ =~= suite_head(path@, self@, verbose, styles@));
        let body = self.body_text(styles);
        let block = indent_block("    ", body.as_str());
        out.append(block.as_str());
        out
    }
}

impl TestList {
    /// The list as text for people to read: binary by binary in the order
    /// of their paths, the tests of each in the order of their names.
    pub fn write_human(&self, verbose: bool, styles: &Styles) -> (out: String)
        ensures
            out@ == human_text(self@.paths, self@.suites, verbose, styles@, self@.paths.len()),
    {
        let entries = self.iter();
        let mut out = String::new();
        let mut i: usize = 0;
        while i < entries.len()
            invariant
                i <= entries.len(),
                entries@.len() == self@.paths.len(),
                forall|k: int|
                    0 <= k < entries@.len() ==> (#[trigger] entries@[k]).0@ == self@.paths[k]
                        && entries@[k].1@ == self@.suites[k],
                out@ == human_text(self@.paths, self@.suites, verbose, styles@, i as nat),
            decreases entries.len() - i,
        {
            let (path, suite) = entries[i];
            assert(path@ == self@.paths[i as int] && suite@ == self@.suites[i as int]);
            let text = suite.write_human(path, verbose, styles);
            out.append(text.as_str());
            i = i + 1;
        }
        out
    }
}

} // verus!
