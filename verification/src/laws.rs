//! Laws that relate the functions of the library to each other.

use vstd::prelude::*;
use crate::assertions::{
    check_assertions_spec, check_line_spec, check_spec, invalid_integer_message, number_of,
    parse_assertion_spec, AssertionView, JsonShape, ObservedView,
};
use crate::config::Config;
use crate::dispatcher::{
    failed, step_spec, validation_failure_message, ActionView, EventView, StageView,
};
use crate::error::ErrorView;
use crate::fence::FenceView;
use crate::lines::{join, lines};
use crate::parser::{
    extract_markers_spec, first_validator_value, is_validator_info, marker_block, marker_rest,
    strip_at, strip_double_at_prefix_spec, MarkersView,
};
use crate::transpiler::{find_opener, first_region, lemma_find_opener, lemma_region_bounds};
use crate::preprocessor::{block_of, BlockView};
use crate::rewrite::fence_edit;
use crate::text::{
    contains, find_from, lemma_contains_empty, lemma_contains_middle, lemma_contains_trans,
    lemma_find_from, matches_at, trim,
};
use crate::transpiler::{
    closer, line_feed, strip_double_at_lines_spec, strip_marker_block_spec, strip_markers_spec,
};
use crate::lines::tokens;

verus! {

/// Every part of a joined sequence occurs in the whole.
pub proof fn lemma_join_contains(parts: Seq<Seq<char>>, sep: Seq<char>, i: int)
    requires
        0 <= i < parts.len(),
    ensures
        contains(join(parts, sep), parts[i]),
    decreases parts.len(),
{
    let empty = Seq::<char>::empty();
    if parts.len() == 1 {
        assert(empty + parts[0] + empty =~= parts[0]);
        lemma_contains_middle(empty, parts[0], empty);
    } else if i == parts.len() - 1 {
        let head = join(parts.drop_last(), sep) + sep;
        assert(head + parts.last() + empty =~= join(parts, sep));
        lemma_contains_middle(head, parts.last(), empty);
    } else {
        let before = join(parts.drop_last(), sep);
        lemma_join_contains(parts.drop_last(), sep, i);
        assert(empty + before + (sep + parts.last()) =~= join(parts, sep));
        lemma_contains_middle(empty, before, sep + parts.last());
        lemma_contains_trans(join(parts, sep), before, parts[i]);
    }
}

/// Every line of the visible content is in the validation content: as it
/// is where it does not begin with `@@`, and else without that prefix.
pub proof fn lemma_validation_content_keeps_lines(visible: Seq<char>, i: int)
    requires
        0 <= i < lines(visible).len(),
    ensures
        contains(strip_double_at_prefix_spec(visible), strip_at(lines(visible)[i])),
{
    let stripped = lines(visible).map_values(|l: Seq<char>| strip_at(l));
    assert(stripped[i] == strip_at(lines(visible)[i]));
    lemma_join_contains(stripped, line_feed(), i);
}

/// A marker that no closer follows is no marker: nothing is extracted for
/// it and nothing is stripped at it, so that all the text stays.
pub proof fn lemma_marker_without_closer(body: Seq<char>, marker: Seq<char>)
    requires
        match find_opener(body, marker, 0) {
            Some(start) => find_from(body, closer(), start) is None,
            None => true,
        },
    ensures
        first_region(body, marker) is None,
        marker_block(body, marker) is None,
        marker_rest(body, marker) == body,
        strip_marker_block_spec(body, marker) == body,
{
    if let Some(start) = find_opener(body, marker, 0) {
        lemma_find_opener(body, marker, 0);
        lemma_find_from(body, closer(), start);
        if let Some(feed) = find_from(body, line_feed(), start) {
            lemma_find_from(body, line_feed(), start);
            lemma_find_from(body, closer(), feed + 1);
        }
    }
}

/// A text without a closer holds no marker region: nothing is extracted,
/// nothing is stripped, and all of it stays in the visible content.
pub proof fn lemma_unclosed_marker_is_no_marker(body: Seq<char>)
    requires
        !contains(body, closer()),
    ensures
        extract_markers_spec(body) == (MarkersView {
            setup: None,
            assertions: None,
            expect: None,
            visible_content: trim(body),
        }),
        strip_markers_spec(body) == strip_double_at_lines_spec(body),
{
    assert forall|marker: Seq<char>| first_region(body, marker) is None by {
        if let Some(start) = find_opener(body, marker, 0) {
            lemma_find_opener(body, marker, 0);
            lemma_find_from(body, closer(), start);
            lemma_marker_without_closer(body, marker);
        }
    }
    assert(marker_rest(body, "<!--SETUP"@) == body);
    assert(marker_rest(body, "<!--ASSERT"@) == body);
    assert(marker_rest(body, "<!--EXPECT"@) == body);
    assert(strip_marker_block_spec(body, "<!--SETUP"@) == body);
    assert(strip_marker_block_spec(body, "<!--ASSERT"@) == body);
    assert(strip_marker_block_spec(body, "<!--EXPECT"@) == body);
}

/// A region between two lines leaves them two lines: what stands before the
/// cut ends with the line feed of the line before, and what stands behind
/// the cut begins with the line behind.
pub proof fn lemma_region_keeps_lines_apart(body: Seq<char>, marker: Seq<char>)
    requires
        first_region(body, marker) is Some,
    ensures
        ({
            let region = first_region(body, marker)->0;
            let end = region.close + closer().len();
            &&& end < body.len() && body[end] == '\n' ==> region.cut_from == region.start
                && region.cut_to == end + 1
            &&& region.cut_from == region.start && region.start > 0 ==> body[region.cut_from - 1]
                == '\n'
            &&& !(end < body.len() && body[end] == '\n') ==> region.cut_to == end
        }),
{
    lemma_region_bounds(body, marker);
    lemma_find_opener(body, marker, 0);
}

/// A fence whose first `validator=` token has an empty value is no validator
/// block: it is neither validated nor edited.
pub proof fn lemma_empty_validator_is_none(content: Seq<char>, f: FenceView)
    requires
        first_validator_value(tokens(f.info)) == Some(Seq::<char>::empty()),
    ensures
        !is_validator_info(f.info),
        block_of(f) is None,
        fence_edit(content, f) is None,
{
}

/// An empty assertion text asserts nothing: the check passes, whatever was
/// observed.
pub proof fn lemma_empty_assertions_pass(observed: ObservedView, shape: JsonShape)
    ensures
        check_assertions_spec(Seq::empty(), observed, shape) == Ok::<(), Seq<char>>(()),
{
}

/// `contains ""` holds of every output.
pub proof fn lemma_contains_empty_string_holds(observed: ObservedView, shape: JsonShape)
    ensures
        parse_assertion_spec("contains \"\""@) == (AssertionView::Contains {
            text: Seq::empty(),
        }),
        check_line_spec("contains \"\""@, observed, shape) == Ok::<(), Seq<char>>(()),
{
    reveal_strlit("contains \"\"");
    reveal_strlit("rows ");
    reveal_strlit("exit_code = ");
    reveal_strlit("contains ");
    let line = "contains \"\""@;
    assert(line.len() == 11);
    assert(line[0] == 'c');
    assert(!matches_at(line, "rows "@, 0)) by {
        if matches_at(line, "rows "@, 0) {
            assert(line.subrange(0, 5)[0] == 'r');
        }
    }
    assert(!matches_at(line, "exit_code = "@, 0));
    assert(line.subrange(0, 9) =~= "contains "@);
    let rest = line.skip(9);
    assert(rest =~= seq!['"', '"']);
    crate::text::lemma_leading_spaces_is(rest, 0);
    crate::text::lemma_trailing_spaces_is(rest, 0);
    assert(trim(rest) =~= rest);
    assert(rest.subrange(1, 1) =~= Seq::<char>::empty());
    crate::text::lemma_leading_spaces_is(line, 0);
    crate::text::lemma_trailing_spaces_is(line, 0);
    assert(trim(line) =~= line);
    lemma_contains_empty(observed.stdout);
}

/// `rows = 0` holds of an output that is the JSON value `null`.
pub proof fn lemma_null_has_no_rows(
    value: Seq<char>,
    line: Seq<char>,
    observed: ObservedView,
)
    requires
        number_of(value) == Some(0int),
    ensures
        check_spec(
            AssertionView::Rows { op: crate::assertions::Comparison::Equal, value },
            line,
            observed,
            JsonShape::Null,
        ) == Ok::<(), Seq<char>>(()),
{
}

/// A numeric assertion whose number is no integer fails, and the message
/// says `invalid integer`.
pub proof fn lemma_malformed_integer_is_reported(
    assertion: AssertionView,
    line: Seq<char>,
    observed: ObservedView,
    shape: JsonShape,
)
    requires
        match assertion {
            AssertionView::Rows { value, .. } => number_of(value) is None,
            AssertionView::ExitCode { value } => number_of(value) is None,
            _ => false,
        },
    ensures
        check_spec(assertion, line, observed, shape) == Err::<(), Seq<char>>(
            invalid_integer_message(line),
        ),
        contains(invalid_integer_message(line), "invalid integer"@),
{
    lemma_contains_middle("Assertion failed: "@, "invalid integer"@, " in '"@ + line + "'"@);
}

/// Where the host validator reports a malformed integer on its standard
/// error and fails, the block fails with a validation error whose message
/// says `invalid integer`.
pub proof fn lemma_malformed_integer_fails_validation(
    config: Config,
    chapter: Seq<char>,
    block: BlockView,
    cache: Map<Seq<char>, Seq<char>>,
    line: Seq<char>,
    exit_code: i32,
    stdout: Seq<char>,
)
    requires
        config.validators.lookup(block.validator_name) is Some,
        exit_code != 0,
    ensures
        ({
            let s = step_spec(
                config,
                chapter,
                block,
                cache,
                StageView::AwaitHost,
                EventView::HostFinished {
                    exit_code,
                    stdout,
                    stderr: invalid_integer_message(line),
                },
            );
            &&& s.action matches ActionView::Finish(
                Err(ErrorView::ValidationFailed { exit_code: code, message }),
            )
            &&& code == exit_code
            &&& contains(message, "invalid integer"@)
        }),
{
    let stderr = invalid_integer_message(line);
    lemma_contains_middle("Assertion failed: "@, "invalid integer"@, " in '"@ + line + "'"@);
    assert(stderr.len() > 0) by {
        let i = choose|i: int| matches_at(stderr, "invalid integer"@, i);
        reveal_strlit("invalid integer");
    }
    let message = validation_failure_message(
        chapter,
        block.validator_name,
        block.markers.visible_content,
        stderr,
        stdout,
    );
    let head = crate::dispatcher::locus(chapter, block.validator_name) + ":\n\nCode:\n"@
        + block.markers.visible_content + "\n"@ + "\nValidator stderr:\n"@;
    let tail = if stdout.len() > 0 {
        "\nValidator stdout:\n"@ + stdout
    } else {
        Seq::empty()
    };
    assert(message =~= head + stderr + tail);
    lemma_contains_middle(head, stderr, tail);
    lemma_contains_trans(message, stderr, "invalid integer"@);
}

} // verus!
