//! The assertion language: one assertion per line, checked in order against
//! what a validator run left behind. The first assertion that fails ends the
//! check, and its message is the result.

use vstd::prelude::*;
use crate::command::{CommandRunner, ScriptOutput};
use crate::error::push_str;
use crate::host_validator::{
    host_env_spec, opt_str_view, pairs_view, run_validator, HostValidationResult,
};
use crate::lines::{lines, lines_exec, views, word_len};
use crate::number::{int_decimal, parse_int, parse_int_spec, push_int_decimal};
use crate::text::{
    char_is_space, chars_of, contains, contains_exec, is_space, matches_at_exec, seq_eq,
    slice_of, starts_with, string_of, trim, trim_chars,
};

verus! {

/// How a count is compared with a number.
#[derive(Debug, Clone, Copy, PartialEq, Eq, Structural)]
pub enum Comparison {
    Equal,
    AtLeast,
    MoreThan,
    AtMost,
    LessThan,
}

/// One assertion, as it was written.
#[derive(Debug)]
pub enum Assertion {
    /// `rows OP N`: the standard output is a JSON array whose length compares
    /// with `N` as `OP` says.
    Rows { op: Comparison, value: String },
    /// `exit_code = N`: the captured exit code is `N`.
    ExitCode { value: String },
    /// `contains "STRING"`: the standard output contains the string.
    Contains { text: String },
    /// `stdout_contains "STRING"`: the same, under its other name.
    StdoutContains { text: String },
    /// `file_exists PATH`: a file is at the path.
    FileExists { path: String },
    /// `dir_exists PATH`: a directory is at the path.
    DirExists { path: String },
    /// `file_contains PATH "STRING"`: the file at the path contains the
    /// string.
    FileContains { path: String, text: String },
    /// Anything else.
    Unknown,
}

pub enum AssertionView {
    Rows { op: Comparison, value: Seq<char> },
    ExitCode { value: Seq<char> },
    Contains { text: Seq<char> },
    StdoutContains { text: Seq<char> },
    FileExists { path: Seq<char> },
    DirExists { path: Seq<char> },
    FileContains { path: Seq<char>, text: Seq<char> },
    Unknown,
}

impl View for Assertion {
    type V = AssertionView;

    open spec fn view(&self) -> AssertionView {
        match *self {
            Assertion::Rows { op, value } => AssertionView::Rows { op, value: value@ },
            Assertion::ExitCode { value } => AssertionView::ExitCode { value: value@ },
            Assertion::Contains { text } => AssertionView::Contains { text: text@ },
            Assertion::StdoutContains { text } => AssertionView::StdoutContains { text: text@ },
            Assertion::FileExists { path } => AssertionView::FileExists { path: path@ },
            Assertion::DirExists { path } => AssertionView::DirExists { path: path@ },
            Assertion::FileContains { path, text } => AssertionView::FileContains {
                path: path@,
                text: text@,
            },
            Assertion::Unknown => AssertionView::Unknown,
        }
    }
}

/// What the sandbox reported of one path.
#[derive(Debug)]
pub struct FileReport {
    pub path: String,
    /// Whether anything is at the path.
    pub exists: bool,
    /// Whether what is there is a directory.
    pub is_dir: bool,
    /// What the file holds, where it is a file.
    pub content: String,
}

/// What a validator run left behind.
#[derive(Debug)]
pub struct Observed {
    /// The captured standard output.
    pub stdout: String,
    /// The captured exit code.
    pub exit_code: i64,
    /// What was reported of the paths that the assertions name.
    pub files: Vec<FileReport>,
}

pub struct FileView {
    pub path: Seq<char>,
    pub exists: bool,
    pub is_dir: bool,
    pub content: Seq<char>,
}

pub struct ObservedView {
    pub stdout: Seq<char>,
    pub exit_code: int,
    pub files: Seq<FileView>,
}

impl View for FileReport {
    type V = FileView;

    open spec fn view(&self) -> FileView {
        FileView {
            path: self.path@,
            exists: self.exists,
            is_dir: self.is_dir,
            content: self.content@,
        }
    }
}

impl View for Observed {
    type V = ObservedView;

    open spec fn view(&self) -> ObservedView {
        ObservedView {
            stdout: self.stdout@,
            exit_code: self.exit_code as int,
            files: Seq::new(self.files@.len(), |i: int| self.files@[i]@),
        }
    }
}

/// What a text is as JSON, as far as counting rows needs to know.
#[derive(Debug, Clone, Copy, PartialEq, Eq, Structural)]
pub enum JsonShape {
    /// The text is no JSON.
    Invalid,
    /// The text is the JSON value `null`.
    Null,
    /// The text is a JSON array with this many elements.
    Array(usize),
    /// The text is some other JSON value.
    Other,
}

/// The shape of a text as the JSON parser reads it.
pub uninterp spec fn json_shape(text: Seq<char>) -> JsonShape;

/// `serde_json::from_str::<serde_json::Value>`: parses the text as one JSON
/// value. Only the kind of the value and, for an array, the number of its
/// elements are handed on. The parser is a function of the text alone.
#[verifier::external_body]
pub(crate) fn json_shape_of(text: &str) -> (r: JsonShape)
    ensures
        r == json_shape(text@),
{
    match serde_json::from_str::<serde_json::Value>(text) {
        Ok(serde_json::Value::Null) => JsonShape::Null,
        Ok(serde_json::Value::Array(items)) => JsonShape::Array(items.len()),
        Ok(_) => JsonShape::Other,
        Err(_) => JsonShape::Invalid,
    }
}

/// What stands between the double quotes that `s` begins and ends with.
pub open spec fn quoted(s: Seq<char>) -> Option<Seq<char>> {
    if s.len() >= 2 && s[0] == '"' && s.last() == '"' {
        Some(s.subrange(1, s.len() - 1))
    } else {
        None
    }
}

/// The operator that `rest` begins with, followed by a space, and what comes
/// after that space.
pub open spec fn comparison_form(rest: Seq<char>) -> Option<(Comparison, Seq<char>)> {
    if starts_with(rest, ">= "@) {
        Some((Comparison::AtLeast, rest.skip(">= "@.len() as int)))
    } else if starts_with(rest, "<= "@) {
        Some((Comparison::AtMost, rest.skip("<= "@.len() as int)))
    } else if starts_with(rest, "= "@) {
        Some((Comparison::Equal, rest.skip("= "@.len() as int)))
    } else if starts_with(rest, "> "@) {
        Some((Comparison::MoreThan, rest.skip("> "@.len() as int)))
    } else if starts_with(rest, "< "@) {
        Some((Comparison::LessThan, rest.skip("< "@.len() as int)))
    } else {
        None
    }
}

pub open spec fn rows_form(rest: Seq<char>) -> AssertionView {
    match comparison_form(rest) {
        Some((op, value)) => if trim(value).len() > 0 {
            AssertionView::Rows { op, value: trim(value) }
        } else {
            AssertionView::Unknown
        },
        None => AssertionView::Unknown,
    }
}

pub open spec fn file_contains_form(rest: Seq<char>) -> AssertionView {
    let arguments = trim(rest);
    let n = word_len(arguments) as int;
    if n == 0 || n > arguments.len() {
        AssertionView::Unknown
    } else {
        match quoted(trim(arguments.skip(n))) {
            Some(text) => AssertionView::FileContains { path: arguments.take(n), text },
            None => AssertionView::Unknown,
        }
    }
}

/// The assertion that a trimmed line states.
pub open spec fn parse_assertion_spec(line: Seq<char>) -> AssertionView {
    if starts_with(line, "rows "@) {
        rows_form(line.skip("rows "@.len() as int))
    } else if starts_with(line, "exit_code = "@) {
        let value = trim(line.skip("exit_code = "@.len() as int));
        if value.len() > 0 {
            AssertionView::ExitCode { value }
        } else {
            AssertionView::Unknown
        }
    } else if starts_with(line, "contains "@) {
        match quoted(trim(line.skip("contains "@.len() as int))) {
            Some(text) => AssertionView::Contains { text },
            None => AssertionView::Unknown,
        }
    } else if starts_with(line, "stdout_contains "@) {
        match quoted(trim(line.skip("stdout_contains "@.len() as int))) {
            Some(text) => AssertionView::StdoutContains { text },
            None => AssertionView::Unknown,
        }
    } else if starts_with(line, "file_exists "@) {
        let path = trim(line.skip("file_exists "@.len() as int));
        if path.len() > 0 {
            AssertionView::FileExists { path }
        } else {
            AssertionView::Unknown
        }
    } else if starts_with(line, "dir_exists "@) {
        let path = trim(line.skip("dir_exists "@.len() as int));
        if path.len() > 0 {
            AssertionView::DirExists { path }
        } else {
            AssertionView::Unknown
        }
    } else if starts_with(line, "file_contains "@) {
        file_contains_form(line.skip("file_contains "@.len() as int))
    } else {
        AssertionView::Unknown
    }
}

/// The number that a numeral stands for, where it is a signed decimal
/// integer of at most 64 bits.
pub open spec fn number_of(value: Seq<char>) -> Option<int> {
    match parse_int_spec(value) {
        Some(n) => if i64::MIN <= n <= i64::MAX {
            Some(n)
        } else {
            None
        },
        None => None,
    }
}

pub open spec fn compare(op: Comparison, left: int, right: int) -> bool {
    match op {
        Comparison::Equal => left == right,
        Comparison::AtLeast => left >= right,
        Comparison::MoreThan => left > right,
        Comparison::AtMost => left <= right,
        Comparison::LessThan => left < right,
    }
}

/// The number of rows of an output: the length of a JSON array, and zero for
/// `null`.
pub open spec fn row_count(shape: JsonShape) -> Option<int> {
    match shape {
        JsonShape::Array(n) => Some(n as int),
        JsonShape::Null => Some(0),
        _ => None,
    }
}

/// The first report on `path`.
pub open spec fn report_for(files: Seq<FileView>, path: Seq<char>) -> Option<FileView>
    decreases files.len(),
{
    if files.len() == 0 {
        None
    } else if files[0].path == path {
        Some(files[0])
    } else {
        report_for(files.drop_first(), path)
    }
}

pub open spec fn invalid_integer_message(line: Seq<char>) -> Seq<char> {
    "Assertion failed: "@ + "invalid integer"@ + (" in '"@ + line + "'"@)
}

pub open spec fn unknown_syntax_message(line: Seq<char>) -> Seq<char> {
    "Unknown assertion syntax: "@ + line
}

pub open spec fn mismatch_message(line: Seq<char>, got: int) -> Seq<char> {
    "Assertion failed: "@ + line + " (got "@ + int_decimal(got) + ")"@
}

pub open spec fn not_json_message(line: Seq<char>) -> Seq<char> {
    "Invalid JSON output: cannot count rows for '"@ + line + "'"@
}

pub open spec fn not_contained_message(text: Seq<char>) -> Seq<char> {
    "Assertion failed: output does not contain \""@ + text + "\""@
}

pub open spec fn no_file_message(path: Seq<char>) -> Seq<char> {
    "Assertion failed: file does not exist: "@ + path
}

pub open spec fn no_dir_message(path: Seq<char>) -> Seq<char> {
    "Assertion failed: directory does not exist: "@ + path
}

pub open spec fn file_lacks_message(path: Seq<char>, text: Seq<char>) -> Seq<char> {
    "Assertion failed: file "@ + path + " does not contain \""@ + text + "\""@
}

/// Whether one assertion holds, and the message where it does not. `line`
/// is the assertion as it was written, for the message.
pub open spec fn check_spec(
    assertion: AssertionView,
    line: Seq<char>,
    observed: ObservedView,
    shape: JsonShape,
) -> Result<(), Seq<char>> {
    match assertion {
        AssertionView::Rows { op, value } => match number_of(value) {
            None => Err(invalid_integer_message(line)),
            Some(n) => match row_count(shape) {
                None => Err(not_json_message(line)),
                Some(rows) => if compare(op, rows, n) {
                    Ok(())
                } else {
                    Err(mismatch_message(line, rows))
                },
            },
        },
        AssertionView::ExitCode { value } => match number_of(value) {
            None => Err(invalid_integer_message(line)),
            Some(n) => if observed.exit_code == n {
                Ok(())
            } else {
                Err(mismatch_message(line, observed.exit_code))
            },
        },
        AssertionView::Contains { text } => if contains(observed.stdout, text) {
            Ok(())
        } else {
            Err(not_contained_message(text))
        },
        AssertionView::StdoutContains { text } => if contains(observed.stdout, text) {
            Ok(())
        } else {
            Err(not_contained_message(text))
        },
        AssertionView::FileExists { path } => match report_for(observed.files, path) {
            Some(report) => if report.exists && !report.is_dir {
                Ok(())
            } else {
                Err(no_file_message(path))
            },
            None => Err(no_file_message(path)),
        },
        AssertionView::DirExists { path } => match report_for(observed.files, path) {
            Some(report) => if report.exists && report.is_dir {
                Ok(())
            } else {
                Err(no_dir_message(path))
            },
            None => Err(no_dir_message(path)),
        },
        AssertionView::FileContains { path, text } => match report_for(observed.files, path) {
            Some(report) => if report.exists && !report.is_dir && contains(report.content, text) {
                Ok(())
            } else {
                Err(file_lacks_message(path, text))
            },
            None => Err(file_lacks_message(path, text)),
        },
        AssertionView::Unknown => Err(unknown_syntax_message(line)),
    }
}

/// Whether the assertion on one line holds. A line of whitespace asserts
/// nothing.
pub open spec fn check_line_spec(line: Seq<char>, observed: ObservedView, shape: JsonShape) -> Result<
    (),
    Seq<char>,
> {
    let written = trim(line);
    if written.len() == 0 {
        Ok(())
    } else {
        check_spec(parse_assertion_spec(written), written, observed, shape)
    }
}

/// The outcome of the assertions on the given lines: the message of the
/// first that fails.
pub open spec fn check_lines_spec(
    all: Seq<Seq<char>>,
    observed: ObservedView,
    shape: JsonShape,
) -> Result<(), Seq<char>>
    decreases all.len(),
{
    if all.len() == 0 {
        Ok(())
    } else {
        match check_line_spec(all[0], observed, shape) {
            Ok(_) => check_lines_spec(all.drop_first(), observed, shape),
            Err(message) => Err(message),
        }
    }
}

/// The outcome of an assertion text.
pub open spec fn check_assertions_spec(
    text: Seq<char>,
    observed: ObservedView,
    shape: JsonShape,
) -> Result<(), Seq<char>> {
    check_lines_spec(lines(text), observed, shape)
}

pub open spec fn outcome_view(r: Result<(), String>) -> Result<(), Seq<char>> {
    match r {
        Ok(_) => Ok(()),
        Err(message) => Err(message@),
    }
}

fn strip_prefix(line: &Vec<char>, prefix: &str) -> (r: Option<Vec<char>>)
    ensures
        match r {
            Some(rest) => starts_with(line@, prefix@) && rest@ == line@.skip(prefix@.len() as int),
            None => !starts_with(line@, prefix@),
        },
{
    let pattern = chars_of(prefix);
    if matches_at_exec(line, &pattern, 0) {
        Some(slice_of(line, pattern.len(), line.len()))
    } else {
        None
    }
}

fn quoted_exec(s: &Vec<char>) -> (r: Option<String>)
    ensures
        match r {
            Some(text) => quoted(s@) == Some(text@),
            None => quoted(s@) is None,
        },
{
    if s.len() >= 2 && s[0] == '"' && s[s.len() - 1] == '"' {
        Some(string_of(&slice_of(s, 1, s.len() - 1)))
    } else {
        None
    }
}

fn comparison_exec(rest: &Vec<char>) -> (r: Option<(Comparison, Vec<char>)>)
    ensures
        match r {
            Some((op, value)) => comparison_form(rest@) == Some((op, value@)),
            None => comparison_form(rest@) is None,
        },
{
    if let Some(value) = strip_prefix(rest, ">= ") {
        return Some((Comparison::AtLeast, value));
    }
    if let Some(value) = strip_prefix(rest, "<= ") {
        return Some((Comparison::AtMost, value));
    }
    if let Some(value) = strip_prefix(rest, "= ") {
        return Some((Comparison::Equal, value));
    }
    if let Some(value) = strip_prefix(rest, "> ") {
        return Some((Comparison::MoreThan, value));
    }
    if let Some(value) = strip_prefix(rest, "< ") {
        return Some((Comparison::LessThan, value));
    }
    None
}

fn rows_exec(rest: &Vec<char>) -> (r: Assertion)
    ensures
        r@ == rows_form(rest@),
{
    match comparison_exec(rest) {
        Some((op, value)) => {
            let value = trim_chars(&value);
            if value.len() > 0 {
                Assertion::Rows { op, value: string_of(&value) }
            } else {
                Assertion::Unknown
            }
        },
        None => Assertion::Unknown,
    }
}

fn file_contains_exec(rest: &Vec<char>) -> (r: Assertion)
    ensures
        r@ == file_contains_form(rest@),
{
    let arguments = trim_chars(rest);
    let mut n: usize = 0;
    while n < arguments.len() && !char_is_space(arguments[n])
        invariant
            n <= arguments.len(),
            forall|k: int| 0 <= k < n ==> !is_space(#[trigger] arguments@[k]),
        decreases arguments.len() - n,
    {
        n += 1;
    }
    proof {
        crate::lines::lemma_word_len_is(arguments@, n as int);
    }
    if n == 0 {
        return Assertion::Unknown;
    }
    let tail = trim_chars(&slice_of(&arguments, n, arguments.len()));
    match quoted_exec(&tail) {
        Some(text) => Assertion::FileContains {
            path: string_of(&slice_of(&arguments, 0, n)),
            text,
        },
        None => Assertion::Unknown,
    }
}

fn named_value(rest: &Vec<char>) -> (r: Option<String>)
    ensures
        match r {
            Some(value) => trim(rest@).len() > 0 && value@ == trim(rest@),
            None => trim(rest@).len() == 0,
        },
{
    let value = trim_chars(rest);
    if value.len() > 0 {
        Some(string_of(&value))
    } else {
        None
    }
}

fn parse_trimmed(line: &Vec<char>) -> (r: Assertion)
    ensures
        r@ == parse_assertion_spec(line@),
{
    if let Some(rest) = strip_prefix(line, "rows ") {
        return rows_exec(&rest);
    }
    if let Some(rest) = strip_prefix(line, "exit_code = ") {
        return match named_value(&rest) {
            Some(value) => Assertion::ExitCode { value },
            None => Assertion::Unknown,
        };
    }
    if let Some(rest) = strip_prefix(line, "contains ") {
        return match quoted_exec(&trim_chars(&rest)) {
            Some(text) => Assertion::Contains { text },
            None => Assertion::Unknown,
        };
    }
    if let Some(rest) = strip_prefix(line, "stdout_contains ") {
        return match quoted_exec(&trim_chars(&rest)) {
            Some(text) => Assertion::StdoutContains { text },
            None => Assertion::Unknown,
        };
    }
    if let Some(rest) = strip_prefix(line, "file_exists ") {
        return match named_value(&rest) {
            Some(path) => Assertion::FileExists { path },
            None => Assertion::Unknown,
        };
    }
    if let Some(rest) = strip_prefix(line, "dir_exists ") {
        return match named_value(&rest) {
            Some(path) => Assertion::DirExists { path },
            None => Assertion::Unknown,
        };
    }
    if let Some(rest) = strip_prefix(line, "file_contains ") {
        return file_contains_exec(&rest);
    }
    Assertion::Unknown
}

/// Reads one assertion. Whitespace around it does not count.
pub fn parse_assertion(line: &str) -> (r: Assertion)
    ensures
        r@ == parse_assertion_spec(trim(line@)),
{
    parse_trimmed(&trim_chars(&chars_of(line)))
}

fn number_exec(value: &String) -> (r: Option<i64>)
    ensures
        match r {
            Some(n) => number_of(value@) == Some(n as int),
            None => number_of(value@) is None,
        },
{
    parse_int(&chars_of(value.as_str()))
}

fn compare_exec(op: Comparison, left: i128, right: i128) -> (r: bool)
    ensures
        r == compare(op, left as int, right as int),
{
    match op {
        Comparison::Equal => left == right,
        Comparison::AtLeast => left >= right,
        Comparison::MoreThan => left > right,
        Comparison::AtMost => left <= right,
        Comparison::LessThan => left < right,
    }
}

fn find_report<'a>(files: &'a Vec<FileReport>, path: &String) -> (r: Option<&'a FileReport>)
    ensures
        match r {
            Some(report) => report_for(
                Seq::new(files@.len(), |i: int| files@[i]@),
                path@,
            ) == Some(report@),
            None => report_for(Seq::new(files@.len(), |i: int| files@[i]@), path@) is None,
        },
{
    let ghost all = Seq::new(files@.len(), |i: int| files@[i]@);
    let wanted = chars_of(path.as_str());
    let mut i: usize = 0;
    assert(all.skip(0) == all);
    while i < files.len()
        invariant
            i <= files.len(),
            wanted@ == path@,
            all == Seq::new(files@.len(), |i: int| files@[i]@),
            report_for(all, path@) == report_for(all.skip(i as int), path@),
        decreases files.len() - i,
    {
        let ghost rest = all.skip(i as int);
        proof {
            assert(rest[0] == files@[i as int]@);
            assert(rest.drop_first() == all.skip(i + 1));
        }
        if seq_eq(&chars_of(files[i].path.as_str()), &wanted) {
            return Some(&files[i]);
        }
        i += 1;
    }
    None
}

fn wrap(head: &str, middle: &str, tail: &str) -> (r: String)
    ensures
        r@ == head@ + middle@ + tail@,
{
    let mut out: Vec<char> = Vec::new();
    push_str(&mut out, head);
    push_str(&mut out, middle);
    push_str(&mut out, tail);
    assert(out@ =~= head@ + middle@ + tail@);
    string_of(&out)
}

fn invalid_integer(line: &str) -> (r: String)
    ensures
        r@ == invalid_integer_message(line@),
{
    let mut out: Vec<char> = Vec::new();
    push_str(&mut out, "Assertion failed: ");
    push_str(&mut out, "invalid integer");
    push_str(&mut out, " in '");
    push_str(&mut out, line);
    push_str(&mut out, "'");
    assert(out@ =~= invalid_integer_message(line@));
    string_of(&out)
}

fn wrap2(head: &str, tail: &str) -> (r: String)
    ensures
        r@ == head@ + tail@,
{
    let mut out: Vec<char> = Vec::new();
    push_str(&mut out, head);
    push_str(&mut out, tail);
    string_of(&out)
}

fn mismatch(line: &str, got: i64) -> (r: String)
    ensures
        r@ == mismatch_message(line@, got as int),
{
    let mut out: Vec<char> = Vec::new();
    push_str(&mut out, "Assertion failed: ");
    push_str(&mut out, line);
    push_str(&mut out, " (got ");
    push_int_decimal(&mut out, got);
    push_str(&mut out, ")");
    assert(out@ =~= mismatch_message(line@, got as int));
    string_of(&out)
}

fn file_lacks(path: &str, text: &str) -> (r: String)
    ensures
        r@ == file_lacks_message(path@, text@),
{
    let mut out: Vec<char> = Vec::new();
    push_str(&mut out, "Assertion failed: file ");
    push_str(&mut out, path);
    push_str(&mut out, " does not contain \"");
    push_str(&mut out, text);
    push_str(&mut out, "\"");
    assert(out@ =~= file_lacks_message(path@, text@));
    string_of(&out)
}

fn holds_in(hay: &String, needle: &String) -> (r: bool)
    ensures
        r == contains(hay@, needle@),
{
    contains_exec(&chars_of(hay.as_str()), &chars_of(needle.as_str()))
}

/// Checks one assertion against what was observed. `line` is the assertion
/// as written, `shape` what the standard output is as JSON.
pub fn check(assertion: &Assertion, line: &str, observed: &Observed, shape: JsonShape) -> (r: Result<
    (),
    String,
>)
    ensures
        outcome_view(r) == check_spec(assertion@, line@, observed@, shape),
{
    match assertion {
        Assertion::Rows { op, value } => match number_exec(value) {
            None => Err(invalid_integer(line)),
            Some(n) => {
                let rows: usize = match shape {
                    JsonShape::Array(count) => count,
                    JsonShape::Null => 0,
                    _ => {
                        return Err(
                            wrap("Invalid JSON output: cannot count rows for '", line, "'"),
                        );
                    },
                };
                if compare_exec(*op, rows as i128, n as i128) {
                    Ok(())
                } else if rows as u64 <= i64::MAX as u64 {
                    Err(mismatch(line, rows as i64))
                } else {
                    Err(mismatch_large(line, rows as u64))
                }
            },
        },
        Assertion::ExitCode { value } => match number_exec(value) {
            None => Err(invalid_integer(line)),
            Some(n) => if observed.exit_code == n {
                Ok(())
            } else {
                Err(mismatch(line, observed.exit_code))
            },
        },
        Assertion::Contains { text } => if holds_in(&observed.stdout, text) {
            Ok(())
        } else {
            Err(wrap("Assertion failed: output does not contain \"", text.as_str(), "\""))
        },
        Assertion::StdoutContains { text } => if holds_in(&observed.stdout, text) {
            Ok(())
        } else {
            Err(wrap("Assertion failed: output does not contain \"", text.as_str(), "\""))
        },
        Assertion::FileExists { path } => match find_report(&observed.files, path) {
            Some(report) => if report.exists && !report.is_dir {
                Ok(())
            } else {
                Err(wrap2("Assertion failed: file does not exist: ", path.as_str()))
            },
            None => Err(wrap2("Assertion failed: file does not exist: ", path.as_str())),
        },
        Assertion::DirExists { path } => match find_report(&observed.files, path) {
            Some(report) => if report.exists && report.is_dir {
                Ok(())
            } else {
                Err(wrap2("Assertion failed: directory does not exist: ", path.as_str()))
            },
            None => Err(wrap2("Assertion failed: directory does not exist: ", path.as_str())),
        },
        Assertion::FileContains { path, text } => match find_report(&observed.files, path) {
            Some(report) => if report.exists && !report.is_dir && holds_in(&report.content, text) {
                Ok(())
            } else {
                Err(file_lacks(path.as_str(), text.as_str()))
            },
            None => Err(file_lacks(path.as_str(), text.as_str())),
        },
        Assertion::Unknown => Err(wrap2("Unknown assertion syntax: ", line)),
    }
}

fn mismatch_large(line: &str, got: u64) -> (r: String)
    ensures
        r@ == mismatch_message(line@, got as int),
{
    let mut out: Vec<char> = Vec::new();
    push_str(&mut out, "Assertion failed: ");
    push_str(&mut out, line);
    push_str(&mut out, " (got ");
    crate::number::push_nat_decimal(&mut out, got);
    push_str(&mut out, ")");
    assert(out@ =~= mismatch_message(line@, got as int));
    string_of(&out)
}

/// Checks an assertion text against what was observed, given what the
/// standard output is as JSON. Lines are checked in order, lines of
/// whitespace are passed over, and the first assertion that fails decides.
pub fn check_assertions_with(text: &str, observed: &Observed, shape: JsonShape) -> (r: Result<
    (),
    String,
>)
    ensures
        outcome_view(r) == check_assertions_spec(text@, observed@, shape),
{
    let all = lines_exec(&chars_of(text));
    let mut i: usize = 0;
    assert(views(all@).skip(0) == views(all@));
    while i < all.len()
        invariant
            i <= all.len(),
            views(all@) == lines(text@),
            check_assertions_spec(text@, observed@, shape) == check_lines_spec(
                views(all@).skip(i as int),
                observed@,
                shape,
            ),
        decreases all.len() - i,
    {
        let ghost rest = views(all@).skip(i as int);
        proof {
            assert(rest[0] == all@[i as int]@);
            assert(rest.drop_first() == views(all@).skip(i + 1));
        }
        let written = trim_chars(&all[i]);
        if written.len() > 0 {
            let assertion = parse_trimmed(&written);
            let line = string_of(&written);
            match check(&assertion, line.as_str(), observed, shape) {
                Ok(_) => {},
                Err(message) => {
                    return Err(message);
                },
            }
        }
        i += 1;
    }
    Ok(())
}

/// Checks an assertion text against what was observed. The standard output
/// is parsed as JSON for the sake of the `rows` assertions.
pub fn check_assertions(text: &str, observed: &Observed) -> (r: Result<(), String>)
    ensures
        outcome_view(r) == check_assertions_spec(text@, observed@, json_shape(observed.stdout@)),
{
    let shape = json_shape_of(observed.stdout.as_str());
    check_assertions_with(text, observed, shape)
}

/// The result that a host validator reports for an outcome: exit code 0 for
/// a pass, exit code 1 and the message on its standard error for a failure.
pub fn report_outcome(outcome: Result<(), String>) -> (r: HostValidationResult)
    ensures
        r.stdout@.len() == 0,
        match outcome {
            Ok(_) => r.exit_code == 0 && r.stderr@.len() == 0,
            Err(message) => r.exit_code == 1 && r.stderr@ == message@,
        },
{
    match outcome {
        Ok(_) => HostValidationResult { exit_code: 0, stdout: String::new(), stderr: String::new() },
        Err(message) => HostValidationResult { exit_code: 1, stdout: String::new(), stderr: message },
    }
}

/// The value of the first binding of `name` in an environment.
pub open spec fn env_value(env: Seq<(Seq<char>, Seq<char>)>, name: Seq<char>) -> Option<Seq<char>>
    decreases env.len(),
{
    if env.len() == 0 {
        None
    } else if env[0].0 == name {
        Some(env[0].1)
    } else {
        env_value(env.drop_first(), name)
    }
}

/// The assertion text that an environment holds: what stands under
/// `VALIDATOR_ASSERTIONS`, and the empty text where nothing does.
pub open spec fn env_assertions(env: Seq<(Seq<char>, Seq<char>)>) -> Seq<char> {
    match env_value(env, "VALIDATOR_ASSERTIONS"@) {
        Some(text) => text,
        None => Seq::empty(),
    }
}

/// What a host validator sees of a run: the output of the query, on its
/// standard input.
pub open spec fn observed_input(stdin: Seq<char>) -> ObservedView {
    ObservedView { stdout: stdin, exit_code: 0, files: Seq::empty() }
}

/// What the assertions of an environment come to for an input.
pub open spec fn assertions_outcome(stdin: Seq<char>, env: Seq<(Seq<char>, Seq<char>)>) -> Result<
    (),
    Seq<char>,
> {
    check_assertions_spec(env_assertions(env), observed_input(stdin), json_shape(stdin))
}

/// A runner that is the host validator itself: it runs no script, but
/// checks the assertions of its environment against its standard input.
#[derive(Debug, Clone, Copy)]
pub struct AssertionRunner;

fn assertions_in(env_vars: &[(&str, &str)]) -> (r: String)
    ensures
        r@ == env_assertions(pairs_view(env_vars@)),
{
    let name = chars_of("VALIDATOR_ASSERTIONS");
    let ghost env = pairs_view(env_vars@);
    let mut i: usize = 0;
    assert(env.skip(0) == env);
    while i < env_vars.len()
        invariant
            i <= env_vars.len(),
            name@ == "VALIDATOR_ASSERTIONS"@,
            env == pairs_view(env_vars@),
            env_value(env, name@) == env_value(env.skip(i as int), name@),
        decreases env_vars.len() - i,
    {
        let ghost rest = env.skip(i as int);
        proof {
            assert(rest[0] == env[i as int]);
            assert(rest.drop_first() == env.skip(i + 1));
        }
        let (key, value) = env_vars[i];
        if seq_eq(&chars_of(key), &name) {
            return value.to_owned();
        }
        i += 1;
    }
    String::new()
}

impl CommandRunner for AssertionRunner {
    /// Checks the assertions under `VALIDATOR_ASSERTIONS` against the
    /// standard input. The exit code is 0 where they hold; else it is 1, and
    /// the message of the first that fails is the standard error.
    fn run_script(&self, script_path: &str, stdin_content: &str, env_vars: &[(&str, &str)]) -> (r:
        Result<ScriptOutput, String>)
        ensures
            r matches Ok(output) && output.stdout@.len() == 0 && match assertions_outcome(
                stdin_content@,
                pairs_view(env_vars@),
            ) {
                Ok(_) => output.code == Some(0i32) && output.stderr@.len() == 0,
                Err(message) => output.code == Some(1i32) && output.stderr@
                    == vstd::utf8::encode_utf8(message),
            },
    {
        let text = assertions_in(env_vars);
        let observed = Observed {
            stdout: stdin_content.to_owned(),
            exit_code: 0,
            files: Vec::new(),
        };
        assert(observed@.files =~= Seq::<FileView>::empty());
        match check_assertions(text.as_str(), &observed) {
            Ok(_) => Ok(ScriptOutput { code: Some(0), stdout: Vec::new(), stderr: Vec::new() }),
            Err(message) => Ok(
                ScriptOutput {
                    code: Some(1),
                    stdout: Vec::new(),
                    stderr: vstd::slice::slice_to_vec(message.as_str().as_bytes()),
                },
            ),
        }
    }
}

/// The assertions that `host_env_spec` lays out are found again under
/// their name.
pub proof fn lemma_env_holds_assertions(
    assertions: Option<Seq<char>>,
    expect: Option<Seq<char>>,
    container_stderr: Option<Seq<char>>,
)
    ensures
        env_value(host_env_spec(assertions, expect, container_stderr), "VALIDATOR_ASSERTIONS"@)
            == assertions,
{
    reveal_strlit("VALIDATOR_ASSERTIONS");
    reveal_strlit("VALIDATOR_EXPECT");
    reveal_strlit("VALIDATOR_CONTAINER_STDERR");
    let name = "VALIDATOR_ASSERTIONS"@;
    let a = match assertions {
        Some(a) => seq![("VALIDATOR_ASSERTIONS"@, a)],
        None => Seq::<(Seq<char>, Seq<char>)>::empty(),
    };
    let e = match expect {
        Some(e) => seq![("VALIDATOR_EXPECT"@, e)],
        None => Seq::<(Seq<char>, Seq<char>)>::empty(),
    };
    let c = match container_stderr {
        Some(c) => seq![("VALIDATOR_CONTAINER_STDERR"@, c)],
        None => Seq::<(Seq<char>, Seq<char>)>::empty(),
    };
    let env = host_env_spec(assertions, expect, container_stderr);
    assert(env == a + e + c);
    assert("VALIDATOR_EXPECT"@.len() != name.len());
    assert("VALIDATOR_CONTAINER_STDERR"@.len() != name.len());
    lemma_env_value_concat(a + e, c, name);
    lemma_env_value_concat(a, e, name);
    assert(env_value(c, name) is None) by {
        if c.len() > 0 {
            assert(c.drop_first() =~= Seq::<(Seq<char>, Seq<char>)>::empty());
        }
    }
    assert(env_value(e, name) is None) by {
        if e.len() > 0 {
            assert(e.drop_first() =~= Seq::<(Seq<char>, Seq<char>)>::empty());
        }
    }
    assert(env_value(a, name) == assertions) by {
        if a.len() > 0 {
            assert(a[0].0 == name);
        }
    }
}

proof fn lemma_env_value_concat(
    a: Seq<(Seq<char>, Seq<char>)>,
    b: Seq<(Seq<char>, Seq<char>)>,
    name: Seq<char>,
)
    ensures
        env_value(a + b, name) == match env_value(a, name) {
            Some(v) => Some(v),
            None => env_value(b, name),
        },
    decreases a.len(),
{
    if a.len() == 0 {
        assert(a + b =~= b);
    } else {
        assert((a + b)[0] == a[0]);
        assert((a + b).drop_first() =~= a.drop_first() + b);
        lemma_env_value_concat(a.drop_first(), b, name);
    }
}

/// The assertion text of an optional input: the empty text where there is
/// none.
pub open spec fn text_of(assertions: Option<Seq<char>>) -> Seq<char> {
    match assertions {
        Some(text) => text,
        None => Seq::empty(),
    }
}

/// Validates the output of a query on the host without a script: the
/// assertions are checked by this library. The result is always there; its
/// exit code is 0 where the assertions hold and 1 where one fails. No
/// assertions, or an empty assertion text, pass.
pub fn validate_on_host(
    json_input: &str,
    assertions: Option<&str>,
    expect: Option<&str>,
    container_stderr: Option<&str>,
) -> (r: Result<HostValidationResult, String>)
    ensures
        r matches Ok(result) && result.exit_code == (match check_assertions_spec(
            text_of(opt_str_view(assertions)),
            observed_input(json_input@),
            json_shape(json_input@),
        ) {
            Ok(_) => 0i32,
            Err(_) => 1i32,
        }),
        text_of(opt_str_view(assertions)).len() == 0 ==> (r matches Ok(result) && result.exit_code
            == 0),
{
    let r = run_validator(&AssertionRunner, "", json_input, assertions, expect, container_stderr);
    proof {
        lemma_env_holds_assertions(
            opt_str_view(assertions),
            opt_str_view(expect),
            opt_str_view(container_stderr),
        );
    }
    r
}

} // verus!
