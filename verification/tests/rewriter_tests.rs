use mdbook_validator::markdown::{MdEvent, MdEventKind};
use mdbook_validator::rewrite::rewrite_chapter;
use mdbook_validator::ValidatorPreprocessor;

fn rewrite(content: &str) -> String {
    ValidatorPreprocessor::strip_markers_from_chapter(content)
}

#[test]
fn happy_path_keeps_the_fence_and_the_sole_body_line() {
    let content = "```sql validator=sqlite\n<!--SETUP\nsqlite3 /tmp/test.db 'CREATE TABLE t(x INTEGER); INSERT INTO t VALUES(42);'\n-->\nSELECT * FROM t;\n<!--ASSERT\nrows >= 1\n-->\n```\n";
    let out = rewrite(content);
    assert_eq!(out, "```sql validator=sqlite\nSELECT * FROM t;\n```");
    assert!(!out.contains("SETUP"));
    assert!(!out.contains("ASSERT"));
    assert!(!out.contains("CREATE TABLE"));
}

#[test]
fn hidden_block_disappears_with_all_its_bytes() {
    let content = "Before\n\n```sql validator=sqlite hidden\n<!--SETUP\nCREATE TABLE t(x);\n-->\nSELECT * FROM t;\n```\n\nAfter\n";
    let out = rewrite(content);
    assert_eq!(out, "Before\n\nAfter");
}

#[test]
fn double_at_lines_leave_the_output() {
    let content = "```sql validator=sqlite\n@@SELECT 1 as hidden_result;\nSELECT 2 as visible_result;\n```\n";
    let out = rewrite(content);
    assert_eq!(out, "```sql validator=sqlite\nSELECT 2 as visible_result;\n```");
}

#[test]
fn text_outside_validator_blocks_is_kept_byte_for_byte() {
    let content = "# Title with `code` and [a *link*](path/to/*.md)\n\n- item one\n  - nested `x`\n- item **two**\n\n> quote\n\n```rust\nfn main() {\n    // <!--SETUP not a marker here\n    @@not hidden\n}\n```\n\n    indented code\n\n| a | b |\n|---|---|\n\n```sql validator=sqlite\n<!--ASSERT\nrows = 1\n-->\nSELECT 1;\n```\n\nTail & <b>html</b>\n";
    let out = rewrite(content);
    let expected = "# Title with `code` and [a *link*](path/to/*.md)\n\n- item one\n  - nested `x`\n- item **two**\n\n> quote\n\n```rust\nfn main() {\n    // <!--SETUP not a marker here\n    @@not hidden\n}\n```\n\n    indented code\n\n| a | b |\n|---|---|\n\n```sql validator=sqlite\nSELECT 1;\n```\n\nTail & <b>html</b>";
    assert_eq!(out, expected);
}

#[test]
fn chapter_without_fences_is_only_collapsed_and_trimmed() {
    let out = rewrite("\n\n  First\n\n\n\n\nSecond\n\n\nThird\n\n");
    assert_eq!(out, "First\n\nSecond\n\nThird");
}

#[test]
fn empty_chapter_stays_empty() {
    assert_eq!(rewrite(""), "");
    assert_eq!(rewrite("\n\n \n"), "");
}

#[test]
fn hidden_block_between_paragraphs_leaves_one_blank_line() {
    let content = "A\n\n```sh validator=bash hidden\necho hi\n```\n\nB\n\n```sh validator=bash hidden\necho ho\n```\n\nC";
    assert_eq!(rewrite(content), "A\n\nB\n\nC");
}

#[test]
fn block_with_only_markers_keeps_an_empty_fence() {
    let content = "```sql validator=sqlite\n<!--SETUP\nCREATE TABLE t;\n-->\n```\n";
    assert_eq!(rewrite(content), "```sql validator=sqlite\n```");
}

#[test]
fn fence_with_empty_validator_value_is_left_alone() {
    let content = "```sql validator=\n<!--SETUP\nx\n-->\n@@hidden\nSELECT 1;\n```\n";
    assert_eq!(
        rewrite(content),
        "```sql validator=\n<!--SETUP\nx\n-->\n@@hidden\nSELECT 1;\n```"
    );
}

#[test]
fn skipped_block_is_still_rewritten() {
    let content = "```sql validator=sqlite skip\n@@hidden\nSELECT 1;\n<!--EXPECT\n[]\n-->\n```\n";
    assert_eq!(rewrite(content), "```sql validator=sqlite skip\nSELECT 1;\n```");
}

#[test]
fn offsets_behind_characters_of_several_bytes_are_found() {
    let content = "Übergrößenträger — 日本語 😀\n\n```sql validator=sqlite\n@@SELECT 'ä';\nSELECT 'ö😀';\n```\n\nEnde 😀\n";
    assert_eq!(
        rewrite(content),
        "Übergrößenträger — 日本語 😀\n\n```sql validator=sqlite\nSELECT 'ö😀';\n```\n\nEnde 😀"
    );
}

#[test]
fn hidden_block_in_a_file_with_carriage_returns() {
    let content = "A\r\n\r\n```sql validator=sqlite hidden\r\nSELECT 1;\r\n```\r\n\r\nB\r\n";
    assert_eq!(rewrite(content), "A\r\n\r\n\r\nB");
}

#[test]
fn tilde_fences_and_longer_fences_are_validator_blocks_too() {
    let content = "~~~~sql validator=sqlite\n@@x\nSELECT 1;\n~~~~\n";
    assert_eq!(rewrite(content), "~~~~sql validator=sqlite\nSELECT 1;\n~~~~");
}

#[test]
fn rewriting_twice_gives_what_rewriting_once_gives() {
    let samples = [
        "```sql validator=sqlite\n<!--SETUP\nCREATE TABLE t;\n-->\nSELECT * FROM t;\n<!--ASSERT\nrows >= 1\n-->\n```\n",
        "A\n\n```sql validator=sqlite hidden\nSELECT 1;\n```\n\n\n\nB\n",
        "# T\n\ntext\n\n```rust\nfn main() {}\n```\n\n```sql validator=x\n@@a\nb\n```\n",
        "no fences at all\n\n\n\nbut blank lines",
        "",
    ];
    for sample in samples {
        let once = rewrite(sample);
        let twice = rewrite(&once);
        assert_eq!(twice, once);
    }
}

fn fenced(info: &str, start: usize, end: usize) -> MdEvent {
    MdEvent {
        kind: MdEventKind::FencedStart(info.to_owned()),
        start,
        end,
    }
}

fn text(t: &str, start: usize, end: usize) -> MdEvent {
    MdEvent {
        kind: MdEventKind::Text(t.to_owned()),
        start,
        end,
    }
}

fn code_end(start: usize, end: usize) -> MdEvent {
    MdEvent {
        kind: MdEventKind::CodeEnd,
        start,
        end,
    }
}

#[test]
fn rewrite_with_given_events_replaces_the_inner_range() {
    //             0         1         2
    //             0123456789012345678901234567
    let content = "```x validator=v\n@@a\nb\n```\nz";
    let events = vec![
        fenced("x validator=v", 0, 27),
        text("@@a\nb\n", 17, 23),
        code_end(0, 27),
    ];
    assert_eq!(
        rewrite_chapter(content, &events),
        "```x validator=v\nb\n```\nz"
    );
}

#[test]
fn rewrite_with_given_events_deletes_from_line_start_through_line_end() {
    let content = "a\n  ```x validator=v hidden\nq\n  ```\nz";
    // the opening fence begins behind two spaces of indentation
    let events = vec![
        fenced("x validator=v hidden", 4, 35),
        text("q\n", 28, 30),
        code_end(4, 35),
    ];
    assert_eq!(rewrite_chapter(content, &events), "a\nz");
}

#[test]
fn events_with_offsets_inside_a_character_or_beyond_the_end_call_for_no_edit() {
    let content = "é```x validator=v hidden\nq\n```\n";
    let inside = vec![fenced("x validator=v hidden", 1, 10), code_end(1, 10)];
    assert_eq!(rewrite_chapter(content, &inside), content.trim());
    let beyond = vec![fenced("x validator=v hidden", 0, 1000), code_end(0, 1000)];
    assert_eq!(rewrite_chapter(content, &beyond), content.trim());
    let backwards = vec![fenced("x validator=v hidden", 9, 2), code_end(9, 2)];
    assert_eq!(rewrite_chapter(content, &backwards), content.trim());
}

#[test]
fn an_edit_that_begins_before_the_end_of_the_one_before_it_is_passed_over() {
    let content = "0123456789\nabcdefghij\n";
    let events = vec![
        fenced("x validator=v hidden", 0, 10),
        code_end(0, 10),
        fenced("x validator=v hidden", 5, 21),
        code_end(5, 21),
    ];
    // the second block's line begins at 0, before the first edit's end at 11
    assert_eq!(rewrite_chapter(content, &events), "abcdefghij");
}

#[test]
fn text_events_outside_a_fenced_block_and_indented_blocks_are_ignored() {
    let content = "    code\n\ntext <!--SETUP\nx\n-->\n";
    let events = vec![
        MdEvent {
            kind: MdEventKind::IndentedStart,
            start: 4,
            end: 9,
        },
        text("code\n", 4, 9),
        code_end(4, 9),
        MdEvent {
            kind: MdEventKind::Other,
            start: 10,
            end: 30,
        },
        text("text", 10, 14),
    ];
    assert_eq!(rewrite_chapter(content, &events), content.trim());
}

#[test]
fn line_that_begins_with_the_prefix_only_once_trimmed_goes_in_a_second_pass() {
    let content = "```sql validator=sqlite\n @@kept\n```\n";
    let once = rewrite(content);
    assert_eq!(once, "```sql validator=sqlite\n@@kept\n```");
    assert_eq!(rewrite(&once), "```sql validator=sqlite\n```");
}

#[test]
fn region_between_two_body_lines_leaves_two_body_lines() {
    let content = "```sql validator=sqlite\na\n<!--ASSERT\nrows = 1\n-->\nc\n```\n";
    assert_eq!(rewrite(content), "```sql validator=sqlite\na\nc\n```");
}

#[test]
fn plain_fence_is_kept_up_to_the_collapsing_of_blank_lines() {
    let content = "Intro\n\n```text\nfirst\n\n\n\nlast\n```\n\n```sql validator=sqlite hidden\nSELECT 1;\n```\n";
    assert_eq!(rewrite(content), "Intro\n\n```text\nfirst\n\nlast\n```");
}
