//! Validation by a script inside the sandbox: one sandbox for the whole
//! book, the validator script at `/validate.sh`, and each block handed to it
//! in the environment.

use vstd::prelude::*;
use crate::container::{
    env_request, sandbox_env_spec, ExecRequest, ExecRequestView, ValidationResult,
};
use crate::markdown::{markdown_events, parse_markdown, MdEvent};
use crate::preprocessor::{validator_blocks, validator_blocks_spec};
use crate::error::{push_str, ErrorView, ValidatorError};
use crate::number::{int_decimal, push_int_decimal};
use crate::parser::{opt_view, strip_double_at_prefix_spec};
use crate::preprocessor::{block_views, BlockView, ValidatorBlock};
use crate::text::string_of;

verus! {

/// The first block at or behind `from` that is not skipped.
pub open spec fn next_unskipped(blocks: Seq<BlockView>, from: int) -> Option<int>
    decreases blocks.len() - from,
{
    if from < 0 || from >= blocks.len() {
        None
    } else if !blocks[from].skip {
        Some(from)
    } else {
        next_unskipped(blocks, from + 1)
    }
}

/// Finds the next block to validate. Skipped blocks are passed over without
/// any work in the sandbox.
pub fn next_block(blocks: &Vec<ValidatorBlock>, from: usize) -> (r: Option<usize>)
    ensures
        match r {
            Some(i) => next_unskipped(block_views(blocks@), from as int) == Some(i as int) && from
                <= i < blocks.len(),
            None => next_unskipped(block_views(blocks@), from as int) is None,
        },
{
    let mut i: usize = from;
    while i < blocks.len()
        invariant
            from <= i,
            next_unskipped(block_views(blocks@), from as int) == next_unskipped(
                block_views(blocks@),
                i as int,
            ),
        decreases blocks.len() - i,
    {
        assert(block_views(blocks@)[i as int] == blocks@[i as int]@);
        if !blocks[i].skip {
            return Some(i);
        }
        i += 1;
    }
    None
}

fn as_deref(o: &Option<String>) -> (r: Option<&str>)
    ensures
        crate::host_validator::opt_str_view(r) == opt_view(*o),
{
    match o {
        Some(s) => Some(s.as_str()),
        None => None,
    }
}

/// The request that validates a block: the validator script runs with the
/// block's validation content, setup, assertions and expected output in its
/// environment.
pub fn script_request(block: &ValidatorBlock) -> (r: ExecRequest)
    ensures
        r@ == script_request_spec(block@),
{
    let content = block.markers.validation_content();
    env_request(
        as_deref(&block.markers.setup),
        content.as_str(),
        as_deref(&block.markers.assertions),
        as_deref(&block.markers.expect),
    )
}

/// The message for a block that the script refused.
pub open spec fn script_failure_message(
    chapter: Seq<char>,
    exit_code: int,
    visible: Seq<char>,
    stderr: Seq<char>,
    stdout: Seq<char>,
) -> Seq<char> {
    "in '"@ + chapter + "' (exit code "@ + int_decimal(exit_code) + "):\n\nCode:\n"@ + visible
        + "\n"@ + (if stderr.len() > 0 {
        "\nValidator stderr:\n"@ + stderr
    } else {
        Seq::empty()
    }) + (if stdout.len() > 0 {
        "\nValidator stdout:\n"@ + stdout
    } else {
        Seq::empty()
    })
}

/// What the script's result means for the block: it passes with exit code 0
/// and fails with any other, and the failure carries the exit code, the
/// block's visible content and each stream that is not empty.
pub fn script_verdict(chapter_name: &str, block: &ValidatorBlock, result: &ValidationResult) -> (r:
    Result<(), ValidatorError>)
    ensures
        match r {
            Ok(_) => result.exit_code == 0,
            Err(e) => result.exit_code != 0 && e@ == (ErrorView::ValidationFailed {
                exit_code: (result.exit_code as i32) as int,
                message: script_failure_message(
                    chapter_name@,
                    result.exit_code as int,
                    block@.markers.visible_content,
                    result.stderr@,
                    result.stdout@,
                ),
            }),
        },
{
    if result.exit_code == 0 {
        return Ok(());
    }
    let mut out: Vec<char> = Vec::new();
    push_str(&mut out, "in '");
    push_str(&mut out, chapter_name);
    push_str(&mut out, "' (exit code ");
    push_int_decimal(&mut out, result.exit_code);
    push_str(&mut out, "):\n\nCode:\n");
    push_str(&mut out, block.markers.visible_content.as_str());
    push_str(&mut out, "\n");
    let ghost head = out@;
    assert(head =~= "in '"@ + chapter_name@ + "' (exit code "@ + int_decimal(
        result.exit_code as int,
    ) + "):\n\nCode:\n"@ + block@.markers.visible_content + "\n"@);
    if !result.stderr.as_str().is_empty() {
        push_str(&mut out, "\nValidator stderr:\n");
        push_str(&mut out, result.stderr.as_str());
    }
    let ghost mid = out@;
    assert(mid =~= head + (if result.stderr@.len() > 0 {
        "\nValidator stderr:\n"@ + result.stderr@
    } else {
        Seq::empty()
    }));
    if !result.stdout.as_str().is_empty() {
        push_str(&mut out, "\nValidator stdout:\n");
        push_str(&mut out, result.stdout.as_str());
    }
    assert(out@ =~= mid + (if result.stdout@.len() > 0 {
        "\nValidator stdout:\n"@ + result.stdout@
    } else {
        Seq::empty()
    }));
    Err(
        ValidatorError::ValidationFailed {
            exit_code: #[verifier::truncate]
            (result.exit_code as i32),
            message: string_of(&out),
        },
    )
}

/// The error for a script that could not be run in the sandbox.
pub fn script_exec_failure(chapter_name: &str, cause: &str) -> (r: ValidatorError)
    ensures
        r@ == (ErrorView::ContainerExec {
            message: "Validation exec failed in '"@ + chapter_name@ + "': "@ + cause@,
        }),
{
    let mut out: Vec<char> = Vec::new();
    push_str(&mut out, "Validation exec failed in '");
    push_str(&mut out, chapter_name);
    push_str(&mut out, "': ");
    push_str(&mut out, cause);
    assert(out@ =~= "Validation exec failed in '"@ + chapter_name@ + "': "@ + cause@);
    ValidatorError::ContainerExec { message: string_of(&out) }
}

/// The error for a sandbox that did not start.
pub fn script_start_failure(cause: &str) -> (r: ValidatorError)
    ensures
        r@ == (ErrorView::ContainerStartup { message: "Failed to start container: "@ + cause@ }),
{
    let mut out: Vec<char> = Vec::new();
    push_str(&mut out, "Failed to start container: ");
    push_str(&mut out, cause);
    ValidatorError::ContainerStartup { message: string_of(&out) }
}

/// The blocks to validate in a chapter with the given source and events:
/// none where the chapter is empty or holds no validator block, so that it
/// stays as it is.
pub open spec fn script_plan_spec(content: Seq<char>, events: Seq<MdEvent>) -> Option<
    Seq<BlockView>,
> {
    let blocks = validator_blocks_spec(events);
    if content.len() == 0 || blocks.len() == 0 {
        None
    } else {
        Some(blocks)
    }
}

pub open spec fn opt_blocks(o: Option<Vec<ValidatorBlock>>) -> Option<Seq<BlockView>> {
    match o {
        Some(blocks) => Some(block_views(blocks@)),
        None => None,
    }
}

/// Plans a chapter, given the events of its parse.
pub fn plan_script_chapter_with_events(content: &str, events: &Vec<MdEvent>) -> (r: Option<
    Vec<ValidatorBlock>,
>)
    ensures
        opt_blocks(r) == script_plan_spec(content@, events@),
{
    if content.is_empty() {
        return None;
    }
    let blocks = validator_blocks(events);
    if blocks.len() == 0 {
        return None;
    }
    Some(blocks)
}

/// Plans a chapter from its source.
pub fn plan_script_chapter(content: &str) -> (r: Option<Vec<ValidatorBlock>>)
    ensures
        opt_blocks(r) == script_plan_spec(content@, markdown_events(content@)),
{
    let events = parse_markdown(content);
    plan_script_chapter_with_events(content, &events)
}

/// How the last run of the script went.
#[derive(Debug)]
pub enum ScriptEvent {
    /// Nothing was run yet.
    Begin,
    /// The script ran to its end.
    Finished(ValidationResult),
    /// The script could not be run in the sandbox.
    Failed { message: String },
}

/// What the caller is to do next.
#[derive(Debug)]
pub enum ScriptAction {
    /// Run this request in the sandbox.
    Run(ExecRequest),
    /// Nothing more: every block has passed, or a block failed with this
    /// error.
    Finish(Result<(), ValidatorError>),
}

pub enum ScriptEventView {
    Begin,
    Finished { exit_code: i64, stdout: Seq<char>, stderr: Seq<char> },
    Failed { message: Seq<char> },
}

pub enum ScriptActionView {
    Run(ExecRequestView),
    Finish(Result<(), ErrorView>),
}

impl View for ScriptEvent {
    type V = ScriptEventView;

    open spec fn view(&self) -> ScriptEventView {
        match *self {
            ScriptEvent::Begin => ScriptEventView::Begin,
            ScriptEvent::Finished(result) => ScriptEventView::Finished {
                exit_code: result.exit_code,
                stdout: result.stdout@,
                stderr: result.stderr@,
            },
            ScriptEvent::Failed { message } => ScriptEventView::Failed { message: message@ },
        }
    }
}

impl View for ScriptAction {
    type V = ScriptActionView;

    open spec fn view(&self) -> ScriptActionView {
        match *self {
            ScriptAction::Run(request) => ScriptActionView::Run(request@),
            ScriptAction::Finish(Ok(_)) => ScriptActionView::Finish(Ok(())),
            ScriptAction::Finish(Err(e)) => ScriptActionView::Finish(Err(e@)),
        }
    }
}

/// The request that validates a block.
pub open spec fn script_request_spec(block: BlockView) -> ExecRequestView {
    ExecRequestView {
        cmd: seq!["sh"@, "/validate.sh"@],
        env: Some(
            sandbox_env_spec(
                block.markers.setup,
                strip_double_at_prefix_spec(block.markers.visible_content),
                block.markers.assertions,
                block.markers.expect,
            ),
        ),
        attach_stdin: false,
        attach_stdout: true,
        attach_stderr: true,
    }
}

/// Where a run stands and what is to be done.
pub struct ScriptStepView {
    pub index: int,
    pub action: ScriptActionView,
}

/// The next block from `from` on that is not skipped is run; where none is
/// left the chapter has passed.
pub open spec fn script_begin(blocks: Seq<BlockView>, from: int) -> ScriptStepView {
    match next_unskipped(blocks, from) {
        Some(i) => ScriptStepView {
            index: i,
            action: ScriptActionView::Run(script_request_spec(blocks[i])),
        },
        None => ScriptStepView {
            index: if from > blocks.len() {
                from
            } else {
                blocks.len() as int
            },
            action: ScriptActionView::Finish(Ok(())),
        },
    }
}

/// The rule of a run in script mode. The blocks are run in document order,
/// skipped blocks are passed over, and the first block that the script
/// refuses, or that cannot be run, ends the run with its error.
pub open spec fn script_step_spec(
    chapter: Seq<char>,
    blocks: Seq<BlockView>,
    index: int,
    event: ScriptEventView,
) -> ScriptStepView {
    match event {
        ScriptEventView::Begin => script_begin(blocks, index),
        ScriptEventView::Finished { exit_code, stdout, stderr } => if 0 <= index < blocks.len() {
            if exit_code == 0 {
                script_begin(blocks, index + 1)
            } else {
                ScriptStepView {
                    index,
                    action: ScriptActionView::Finish(
                        Err(
                            ErrorView::ValidationFailed {
                                exit_code: (exit_code as i32) as int,
                                message: script_failure_message(
                                    chapter,
                                    exit_code as int,
                                    blocks[index].markers.visible_content,
                                    stderr,
                                    stdout,
                                ),
                            },
                        ),
                    ),
                }
            }
        } else {
            ScriptStepView {
                index,
                action: ScriptActionView::Finish(
                    Err(ErrorView::ContainerExec { message: "Unexpected event for this stage"@ }),
                ),
            }
        },
        ScriptEventView::Failed { message } => ScriptStepView {
            index,
            action: ScriptActionView::Finish(
                Err(
                    ErrorView::ContainerExec {
                        message: "Validation exec failed in '"@ + chapter + "': "@ + message,
                    },
                ),
            ),
        },
    }
}

fn begin_from(blocks: &Vec<ValidatorBlock>, from: usize) -> (r: (usize, ScriptAction))
    ensures
        (ScriptStepView { index: r.0 as int, action: r.1@ }) == script_begin(
            block_views(blocks@),
            from as int,
        ),
{
    match next_block(blocks, from) {
        Some(i) => {
            assert(block_views(blocks@)[i as int] == blocks@[i as int]@);
            (i, ScriptAction::Run(script_request(&blocks[i])))
        },
        None => {
            let index = if from > blocks.len() {
                from
            } else {
                blocks.len()
            };
            (index, ScriptAction::Finish(Ok(())))
        },
    }
}

/// Carries the validation of a chapter in script mode on. `index` is 0 and
/// `event` is `ScriptEvent::Begin` for a run that has not begun; else they
/// are the index that the last call returned and the outcome of the request
/// that it returned.
pub fn script_step(
    chapter_name: &str,
    blocks: &Vec<ValidatorBlock>,
    index: usize,
    event: ScriptEvent,
) -> (r: (usize, ScriptAction))
    ensures
        (ScriptStepView { index: r.0 as int, action: r.1@ }) == script_step_spec(
            chapter_name@,
            block_views(blocks@),
            index as int,
            event@,
        ),
{
    match event {
        ScriptEvent::Begin => begin_from(blocks, index),
        ScriptEvent::Finished(result) => {
            if index < blocks.len() {
                assert(block_views(blocks@)[index as int] == blocks@[index as int]@);
                match script_verdict(chapter_name, &blocks[index], &result) {
                    Ok(_) => begin_from(blocks, index + 1),
                    Err(e) => (index, ScriptAction::Finish(Err(e))),
                }
            } else {
                (
                    index,
                    ScriptAction::Finish(
                        Err(
                            ValidatorError::ContainerExec {
                                message: "Unexpected event for this stage".to_owned(),
                            },
                        ),
                    ),
                )
            }
        },
        ScriptEvent::Failed { message } => (
            index,
            ScriptAction::Finish(Err(script_exec_failure(chapter_name, message.as_str()))),
        ),
    }
}

} // verus!
