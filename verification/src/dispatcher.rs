//! The block dispatcher: what to do next for a validator block, given what
//! has happened so far. The caller performs each action (a file check, a
//! sandbox start, a command in the sandbox, a host validator run) and comes
//! back with the event that tells how it went.

use vstd::prelude::*;
use crate::cache::SandboxCache;
use crate::config::{invalid_reason, Config, ValidatorConfig};
use crate::container::{image_name, image_tag, split_image, string_views, ValidationResult};
use crate::error::{push_str, ErrorView, ValidatorError};
use crate::host_validator::HostValidationResult;
use crate::parser::{opt_view, strip_double_at_prefix_spec, MarkersView};
use crate::preprocessor::{exec_command_spec, BlockView, ValidatorBlock, ValidatorPreprocessor};
use crate::text::{chars_of, string_of, trim, trim_chars};

verus! {

/// How far the validation of one block has come.
#[derive(Debug)]
pub enum Stage {
    /// Nothing has been done yet.
    Start,
    /// The caller was asked whether the host validator script exists.
    AwaitScript,
    /// The caller was asked to start the validator's sandbox.
    AwaitSandbox { script_path: String },
    /// The setup command runs in the sandbox.
    AwaitSetup { script_path: String, session: String },
    /// The query command runs in the sandbox.
    AwaitQuery { script_path: String },
    /// The host validator script runs.
    AwaitHost,
    /// The block is finished, well or badly.
    Done,
}

/// What the caller is to do next.
#[derive(Debug)]
pub enum Action {
    /// Resolve `script` against the book root and see whether a file is
    /// there.
    CheckScript { script: String },
    /// Start a sandbox from the image, with the fixtures directory, if any,
    /// mounted at `/fixtures`.
    StartSandbox { image_name: String, image_tag: String, fixtures_dir: Option<String> },
    /// Run `cmd` in the sandbox `session`, feeding `stdin` to it where there
    /// is any.
    Exec { session: String, cmd: Vec<String>, stdin: Option<String> },
    /// Run the host validator script on what the query wrote.
    RunHostValidator {
        script_path: String,
        stdin: String,
        assertions: Option<String>,
        expect: Option<String>,
        container_stderr: String,
    },
    /// Nothing more: the block is valid, or it failed with this error.
    Finish(Result<(), ValidatorError>),
}

/// How the last action went.
#[derive(Debug)]
pub enum Event {
    /// No action was asked for yet.
    Begin,
    /// The script exists; `path` is where.
    ScriptFound { path: String },
    /// No file is at `path`, where the script should be.
    ScriptMissing { path: String },
    /// The sandbox runs under the identifier `session`.
    SandboxStarted { session: String },
    /// The sandbox platform refused.
    SandboxFailed { message: String },
    /// Nothing is at `path`, where the fixtures directory should be.
    FixturesMissing { path: String },
    /// What is at `path` is no directory.
    FixturesNotDirectory { path: String },
    /// The directory at `path` could not be resolved to its real place.
    FixturesUnresolved { path: String, message: String },
    /// The command ran to its end.
    ExecFinished(ValidationResult),
    /// The command could not be run or followed.
    ExecFailed { message: String },
    /// The host validator script ran to its end.
    HostFinished(HostValidationResult),
    /// The host validator script could not be run.
    HostFailed { message: String },
}

/// The next stage and the action that leads to it.
#[derive(Debug)]
pub struct Step {
    pub stage: Stage,
    pub action: Action,
}

pub enum StageView {
    Start,
    AwaitScript,
    AwaitSandbox { script_path: Seq<char> },
    AwaitSetup { script_path: Seq<char>, session: Seq<char> },
    AwaitQuery { script_path: Seq<char> },
    AwaitHost,
    Done,
}

pub enum ActionView {
    CheckScript { script: Seq<char> },
    StartSandbox { image_name: Seq<char>, image_tag: Seq<char>, fixtures_dir: Option<Seq<char>> },
    Exec { session: Seq<char>, cmd: Seq<Seq<char>>, stdin: Option<Seq<char>> },
    RunHostValidator {
        script_path: Seq<char>,
        stdin: Seq<char>,
        assertions: Option<Seq<char>>,
        expect: Option<Seq<char>>,
        container_stderr: Seq<char>,
    },
    Finish(Result<(), ErrorView>),
}

pub enum EventView {
    Begin,
    ScriptFound { path: Seq<char> },
    ScriptMissing { path: Seq<char> },
    SandboxStarted { session: Seq<char> },
    SandboxFailed { message: Seq<char> },
    FixturesMissing { path: Seq<char> },
    FixturesNotDirectory { path: Seq<char> },
    FixturesUnresolved { path: Seq<char>, message: Seq<char> },
    ExecFinished { exit_code: i64, stdout: Seq<char>, stderr: Seq<char> },
    ExecFailed { message: Seq<char> },
    HostFinished { exit_code: i32, stdout: Seq<char>, stderr: Seq<char> },
    HostFailed { message: Seq<char> },
}

pub struct StepView {
    pub stage: StageView,
    pub action: ActionView,
    pub cache: Map<Seq<char>, Seq<char>>,
}

impl View for Stage {
    type V = StageView;

    open spec fn view(&self) -> StageView {
        match *self {
            Stage::Start => StageView::Start,
            Stage::AwaitScript => StageView::AwaitScript,
            Stage::AwaitSandbox { script_path } => StageView::AwaitSandbox {
                script_path: script_path@,
            },
            Stage::AwaitSetup { script_path, session } => StageView::AwaitSetup {
                script_path: script_path@,
                session: session@,
            },
            Stage::AwaitQuery { script_path } => StageView::AwaitQuery {
                script_path: script_path@,
            },
            Stage::AwaitHost => StageView::AwaitHost,
            Stage::Done => StageView::Done,
        }
    }
}

impl View for Action {
    type V = ActionView;

    open spec fn view(&self) -> ActionView {
        match *self {
            Action::CheckScript { script } => ActionView::CheckScript { script: script@ },
            Action::StartSandbox { image_name, image_tag, fixtures_dir } => ActionView::StartSandbox {
                image_name: image_name@,
                image_tag: image_tag@,
                fixtures_dir: opt_view(fixtures_dir),
            },
            Action::Exec { session, cmd, stdin } => ActionView::Exec {
                session: session@,
                cmd: string_views(cmd@),
                stdin: opt_view(stdin),
            },
            Action::RunHostValidator {
                script_path,
                stdin,
                assertions,
                expect,
                container_stderr,
            } => ActionView::RunHostValidator {
                script_path: script_path@,
                stdin: stdin@,
                assertions: opt_view(assertions),
                expect: opt_view(expect),
                container_stderr: container_stderr@,
            },
            Action::Finish(Ok(_)) => ActionView::Finish(Ok(())),
            Action::Finish(Err(e)) => ActionView::Finish(Err(e@)),
        }
    }
}

impl View for Event {
    type V = EventView;

    open spec fn view(&self) -> EventView {
        match *self {
            Event::Begin => EventView::Begin,
            Event::ScriptFound { path } => EventView::ScriptFound { path: path@ },
            Event::ScriptMissing { path } => EventView::ScriptMissing { path: path@ },
            Event::SandboxStarted { session } => EventView::SandboxStarted { session: session@ },
            Event::SandboxFailed { message } => EventView::SandboxFailed { message: message@ },
            Event::FixturesMissing { path } => EventView::FixturesMissing { path: path@ },
            Event::FixturesNotDirectory { path } => EventView::FixturesNotDirectory {
                path: path@,
            },
            Event::FixturesUnresolved { path, message } => EventView::FixturesUnresolved {
                path: path@,
                message: message@,
            },
            Event::ExecFinished(result) => EventView::ExecFinished {
                exit_code: result.exit_code,
                stdout: result.stdout@,
                stderr: result.stderr@,
            },
            Event::ExecFailed { message } => EventView::ExecFailed { message: message@ },
            Event::HostFinished(result) => EventView::HostFinished {
                exit_code: result.exit_code,
                stdout: result.stdout@,
                stderr: result.stderr@,
            },
            Event::HostFailed { message } => EventView::HostFailed { message: message@ },
        }
    }
}

/// The command line that hands `script` to a shell.
pub open spec fn sh_c(script: Seq<char>) -> Seq<Seq<char>> {
    seq!["sh"@, "-c"@, script]
}

/// The setup script of a block: its setup text, trimmed, unless that is
/// empty.
pub open spec fn setup_of(markers: MarkersView) -> Option<Seq<char>> {
    match markers.setup {
        Some(text) => if trim(text).len() > 0 {
            Some(trim(text))
        } else {
            None
        },
        None => None,
    }
}

/// What is fed to the query command: the validation content, trimmed.
pub open spec fn query_of(markers: MarkersView) -> Seq<char> {
    trim(strip_double_at_prefix_spec(markers.visible_content))
}

/// Where a failure happened: the chapter and the validator.
pub open spec fn locus(chapter: Seq<char>, name: Seq<char>) -> Seq<char> {
    "in '"@ + chapter + "' (validator: "@ + name + ")"@
}

pub open spec fn setup_failure_message(
    chapter: Seq<char>,
    name: Seq<char>,
    setup: Seq<char>,
    stderr: Seq<char>,
) -> Seq<char> {
    locus(chapter, name) + ":\n\nScript:\n"@ + setup + "\n\nError:\n"@ + stderr
}

pub open spec fn query_failure_message(
    chapter: Seq<char>,
    name: Seq<char>,
    query: Seq<char>,
    stderr: Seq<char>,
) -> Seq<char> {
    locus(chapter, name) + ":\n\nSQL:\n"@ + query + "\n\nError:\n"@ + stderr
}

pub open spec fn empty_query_message(chapter: Seq<char>, name: Seq<char>) -> Seq<char> {
    locus(chapter, name) + ": Query content is empty"@
}

/// The message of a failed validation: where it happened, the block's
/// visible content, and each stream of the host validator that is not
/// empty.
pub open spec fn validation_failure_message(
    chapter: Seq<char>,
    name: Seq<char>,
    visible: Seq<char>,
    stderr: Seq<char>,
    stdout: Seq<char>,
) -> Seq<char> {
    locus(chapter, name) + ":\n\nCode:\n"@ + visible + "\n"@ + (if stderr.len() > 0 {
        "\nValidator stderr:\n"@ + stderr
    } else {
        Seq::empty()
    }) + (if stdout.len() > 0 {
        "\nValidator stdout:\n"@ + stdout
    } else {
        Seq::empty()
    })
}

pub open spec fn host_failure_message(chapter: Seq<char>, name: Seq<char>, cause: Seq<char>) -> Seq<
    char,
> {
    "Host validator failed "@ + locus(chapter, name) + ": "@ + cause
}

pub open spec fn start_failure_message(image: Seq<char>, cause: Seq<char>) -> Seq<char> {
    "Failed to start container '"@ + image + "': "@ + cause
}

pub open spec fn fixtures_missing_message(path: Seq<char>) -> Seq<char> {
    "fixtures_dir '"@ + path + "' does not exist"@
}

pub open spec fn fixtures_not_directory_message(path: Seq<char>) -> Seq<char> {
    "fixtures_dir '"@ + path + "' is not a directory"@
}

pub open spec fn fixtures_unresolved_message(path: Seq<char>, cause: Seq<char>) -> Seq<char> {
    "fixtures_dir '"@ + path + "' cannot be resolved: "@ + cause
}

/// A block that ends with an error.
pub open spec fn failed(e: ErrorView, cache: Map<Seq<char>, Seq<char>>) -> StepView {
    StepView { stage: StageView::Done, action: ActionView::Finish(Err(e)), cache }
}

/// A block that ends well.
pub open spec fn passed(cache: Map<Seq<char>, Seq<char>>) -> StepView {
    StepView { stage: StageView::Done, action: ActionView::Finish(Ok(())), cache }
}

/// The query step: the validation content goes to the query command on its
/// standard input, never into the command line. Empty content is a failed
/// validation.
pub open spec fn query_step(
    chapter: Seq<char>,
    block: BlockView,
    definition: ValidatorConfig,
    script_path: Seq<char>,
    session: Seq<char>,
    cache: Map<Seq<char>, Seq<char>>,
) -> StepView {
    let query = query_of(block.markers);
    if query.len() == 0 {
        failed(
            ErrorView::ValidationFailed {
                exit_code: -1,
                message: empty_query_message(chapter, block.validator_name),
            },
            cache,
        )
    } else {
        StepView {
            stage: StageView::AwaitQuery { script_path },
            action: ActionView::Exec {
                session,
                cmd: sh_c(exec_command_spec(block.validator_name, definition)),
                stdin: Some(query),
            },
            cache,
        }
    }
}

/// What follows once the block has its sandbox: the setup script where
/// there is one, else the query.
pub open spec fn sandbox_step(
    chapter: Seq<char>,
    block: BlockView,
    definition: ValidatorConfig,
    script_path: Seq<char>,
    session: Seq<char>,
    cache: Map<Seq<char>, Seq<char>>,
) -> StepView {
    match setup_of(block.markers) {
        Some(setup) => StepView {
            stage: StageView::AwaitSetup { script_path, session },
            action: ActionView::Exec { session, cmd: sh_c(setup), stdin: None },
            cache,
        },
        None => query_step(chapter, block, definition, script_path, session, cache),
    }
}

/// The first step of a block. A block marked both `skip` and `hidden` is
/// refused. Any other skipped block is finished at once, with no action at
/// all. A block whose validator is unknown or ill-defined fails before
/// anything is touched. Otherwise the script is looked for.
pub open spec fn begin_step(config: Config, block: BlockView, cache: Map<Seq<char>, Seq<char>>) -> StepView {
    if block.skip && block.hidden {
        failed(ErrorView::MutuallyExclusiveAttributes, cache)
    } else if block.skip {
        passed(cache)
    } else {
        match config.validators.lookup(block.validator_name) {
            None => failed(ErrorView::UnknownValidator { name: block.validator_name }, cache),
            Some(definition) => match invalid_reason(definition) {
                Some(reason) => failed(
                    ErrorView::InvalidConfig { name: block.validator_name, reason },
                    cache,
                ),
                None => StepView {
                    stage: StageView::AwaitScript,
                    action: ActionView::CheckScript { script: definition.script@ },
                    cache,
                },
            },
        }
    }
}

/// The step for an event that the stage does not wait for.
pub open spec fn unexpected(cache: Map<Seq<char>, Seq<char>>) -> StepView {
    failed(ErrorView::ContainerExec { message: "Unexpected event for this stage"@ }, cache)
}

/// The dispatcher's rule: the next stage, the next action and the cache,
/// from the stage, the event and the cache as they are.
pub open spec fn step_spec(
    config: Config,
    chapter: Seq<char>,
    block: BlockView,
    cache: Map<Seq<char>, Seq<char>>,
    stage: StageView,
    event: EventView,
) -> StepView {
    let name = block.validator_name;
    match config.validators.lookup(name) {
        None => match (stage, event) {
            (StageView::Start, EventView::Begin) => begin_step(config, block, cache),
            _ => failed(ErrorView::UnknownValidator { name }, cache),
        },
        Some(definition) => match (stage, event) {
            (StageView::Start, EventView::Begin) => begin_step(config, block, cache),
            (StageView::AwaitScript, EventView::ScriptMissing { path }) => failed(
                ErrorView::ScriptNotFound { path },
                cache,
            ),
            (StageView::AwaitScript, EventView::ScriptFound { path }) => if cache.contains_key(
                name,
            ) {
                sandbox_step(chapter, block, definition, path, cache[name], cache)
            } else {
                StepView {
                    stage: StageView::AwaitSandbox { script_path: path },
                    action: ActionView::StartSandbox {
                        image_name: image_name(definition.container@),
                        image_tag: image_tag(definition.container@),
                        fixtures_dir: opt_view(config.fixtures_dir),
                    },
                    cache,
                }
            },
            (StageView::AwaitSandbox { script_path }, EventView::SandboxStarted { session }) => {
                let bound = if cache.contains_key(name) {
                    cache
                } else {
                    cache.insert(name, session)
                };
                sandbox_step(chapter, block, definition, script_path, bound[name], bound)
            },
            (StageView::AwaitSandbox { .. }, EventView::SandboxFailed { message }) => failed(
                ErrorView::ContainerStartup {
                    message: start_failure_message(definition.container@, message),
                },
                cache,
            ),
            (StageView::AwaitSandbox { .. }, EventView::FixturesMissing { path }) => failed(
                ErrorView::FixturesError { message: fixtures_missing_message(path) },
                cache,
            ),
            (StageView::AwaitSandbox { .. }, EventView::FixturesNotDirectory { path }) => failed(
                ErrorView::FixturesError { message: fixtures_not_directory_message(path) },
                cache,
            ),
            (StageView::AwaitSandbox { .. }, EventView::FixturesUnresolved { path, message }) =>
                failed(
                    ErrorView::FixturesError {
                        message: fixtures_unresolved_message(path, message),
                    },
                    cache,
                ),
            (
                StageView::AwaitSetup { script_path, session },
                EventView::ExecFinished { exit_code, stdout, stderr },
            ) => if exit_code != 0 {
                failed(
                    ErrorView::SetupFailed {
                        exit_code: (exit_code as i32) as int,
                        message: setup_failure_message(
                            chapter,
                            name,
                            match setup_of(block.markers) {
                                Some(setup) => setup,
                                None => Seq::empty(),
                            },
                            stderr,
                        ),
                    },
                    cache,
                )
            } else {
                query_step(chapter, block, definition, script_path, session, cache)
            },
            (StageView::AwaitSetup { .. }, EventView::ExecFailed { message }) => failed(
                ErrorView::ContainerExec { message: "Setup exec failed: "@ + message },
                cache,
            ),
            (
                StageView::AwaitQuery { script_path },
                EventView::ExecFinished { exit_code, stdout, stderr },
            ) => if exit_code != 0 {
                failed(
                    ErrorView::QueryFailed {
                        exit_code: (exit_code as i32) as int,
                        message: query_failure_message(
                            chapter,
                            name,
                            query_of(block.markers),
                            stderr,
                        ),
                    },
                    cache,
                )
            } else {
                StepView {
                    stage: StageView::AwaitHost,
                    action: ActionView::RunHostValidator {
                        script_path,
                        stdin: stdout,
                        assertions: block.markers.assertions,
                        expect: block.markers.expect,
                        container_stderr: stderr,
                    },
                    cache,
                }
            },
            (StageView::AwaitQuery { .. }, EventView::ExecFailed { message }) => failed(
                ErrorView::ContainerExec { message: "Query exec failed: "@ + message },
                cache,
            ),
            (StageView::AwaitHost, EventView::HostFinished { exit_code, stdout, stderr }) =>
                if exit_code != 0 {
                    failed(
                        ErrorView::ValidationFailed {
                            exit_code: exit_code as int,
                            message: validation_failure_message(
                                chapter,
                                name,
                                block.markers.visible_content,
                                stderr,
                                stdout,
                            ),
                        },
                        cache,
                    )
                } else {
                    passed(cache)
                },
            (StageView::AwaitHost, EventView::HostFailed { message }) => failed(
                ErrorView::ValidationFailed {
                    exit_code: -1,
                    message: host_failure_message(chapter, name, message),
                },
                cache,
            ),
            _ => unexpected(cache),
        },
    }
}

impl Step {
    /// The step as character sequences, with the cache it leaves.
    pub open spec fn with_cache(&self, cache: Map<Seq<char>, Seq<char>>) -> StepView {
        StepView { stage: self.stage@, action: self.action@, cache }
    }
}

fn fail(e: ValidatorError) -> (r: Step)
    ensures
        r.stage@ == StageView::Done,
        r.action@ == ActionView::Finish(Err(e@)),
{
    Step { stage: Stage::Done, action: Action::Finish(Err(e)) }
}

fn pass() -> (r: Step)
    ensures
        r.stage@ == StageView::Done,
        r.action@ == ActionView::Finish(Ok(())),
{
    Step { stage: Stage::Done, action: Action::Finish(Ok(())) }
}

fn copy_opt(o: &Option<String>) -> (r: Option<String>)
    ensures
        r == *o,
{
    match o {
        Some(s) => Some(s.clone()),
        None => None,
    }
}

fn push_locus(out: &mut Vec<char>, chapter_name: &str, validator_name: &str)
    ensures
        final(out)@ == old(out)@ + locus(chapter_name@, validator_name@),
{
    push_str(out, "in '");
    push_str(out, chapter_name);
    push_str(out, "' (validator: ");
    push_str(out, validator_name);
    push_str(out, ")");
    assert(out@ =~= old(out)@ + locus(chapter_name@, validator_name@));
}

fn shell_command(script: &str) -> (r: Vec<String>)
    ensures
        string_views(r@) == sh_c(script@),
{
    let mut cmd: Vec<String> = Vec::new();
    cmd.push("sh".to_owned());
    cmd.push("-c".to_owned());
    cmd.push(script.to_owned());
    assert(string_views(cmd@) =~= sh_c(script@));
    cmd
}

fn setup_script(block: &ValidatorBlock) -> (r: Option<String>)
    ensures
        opt_view(r) == setup_of(block@.markers),
{
    match &block.markers.setup {
        Some(text) => {
            let script = trim_chars(&chars_of(text.as_str()));
            if script.len() > 0 {
                Some(string_of(&script))
            } else {
                None
            }
        },
        None => None,
    }
}

fn query_text(block: &ValidatorBlock) -> (r: String)
    ensures
        r@ == query_of(block@.markers),
{
    let content = block.markers.validation_content();
    string_of(&trim_chars(&chars_of(content.as_str())))
}

fn query_step_exec(
    chapter_name: &str,
    block: &ValidatorBlock,
    definition: &ValidatorConfig,
    script_path: String,
    session: String,
    Ghost(cache): Ghost<Map<Seq<char>, Seq<char>>>,
) -> (r: Step)
    ensures
        r.with_cache(cache) == query_step(
            chapter_name@,
            block@,
            *definition,
            script_path@,
            session@,
            cache,
        ),
{
    let query = query_text(block);
    if query.as_str().is_empty() {
        let mut message: Vec<char> = Vec::new();
        push_locus(&mut message, chapter_name, block.validator_name.as_str());
        push_str(&mut message, ": Query content is empty");
        fail(ValidatorError::ValidationFailed { exit_code: -1, message: string_of(&message) })
    } else {
        let command = ValidatorPreprocessor::get_exec_command(
            block.validator_name.as_str(),
            definition,
        );
        Step {
            stage: Stage::AwaitQuery { script_path },
            action: Action::Exec {
                session,
                cmd: shell_command(command.as_str()),
                stdin: Some(query),
            },
        }
    }
}

fn sandbox_step_exec(
    chapter_name: &str,
    block: &ValidatorBlock,
    definition: &ValidatorConfig,
    script_path: String,
    session: String,
    Ghost(cache): Ghost<Map<Seq<char>, Seq<char>>>,
) -> (r: Step)
    ensures
        r.with_cache(cache) == sandbox_step(
            chapter_name@,
            block@,
            *definition,
            script_path@,
            session@,
            cache,
        ),
{
    match setup_script(block) {
        Some(setup) => Step {
            stage: Stage::AwaitSetup { script_path, session: session.clone() },
            action: Action::Exec { session, cmd: shell_command(setup.as_str()), stdin: None },
        },
        None => query_step_exec(chapter_name, block, definition, script_path, session, Ghost(cache)),
    }
}

fn begin_step_exec(config: &Config, block: &ValidatorBlock, Ghost(cache): Ghost<
    Map<Seq<char>, Seq<char>>,
>) -> (r: Step)
    ensures
        r.with_cache(cache) == begin_step(*config, block@, cache),
{
    if block.skip && block.hidden {
        return fail(ValidatorError::MutuallyExclusiveAttributes);
    }
    if block.skip {
        return pass();
    }
    match config.get_validator(block.validator_name.as_str()) {
        Err(e) => fail(e),
        Ok(definition) => match definition.validate(block.validator_name.as_str()) {
            Err(e) => fail(e),
            Ok(_) => Step {
                stage: Stage::AwaitScript,
                action: Action::CheckScript { script: definition.script.clone() },
            },
        },
    }
}

fn two_part_message(head: &str, tail: &str) -> (r: String)
    ensures
        r@ == head@ + tail@,
{
    let mut out: Vec<char> = Vec::new();
    push_str(&mut out, head);
    push_str(&mut out, tail);
    string_of(&out)
}

fn three_part_message(head: &str, middle: &str, tail: &str) -> (r: String)
    ensures
        r@ == head@ + middle@ + tail@,
{
    let mut out: Vec<char> = Vec::new();
    push_str(&mut out, head);
    push_str(&mut out, middle);
    push_str(&mut out, tail);
    assert(out@ =~= head@ + middle@ + tail@);
    string_of(&out)
}

fn failure_with_streams(
    chapter_name: &str,
    validator_name: &str,
    label: &str,
    shown: &str,
    stderr: &str,
) -> (r: String)
    ensures
        r@ == locus(chapter_name@, validator_name@) + label@ + shown@ + "\n\nError:\n"@ + stderr@,
{
    let mut out: Vec<char> = Vec::new();
    push_locus(&mut out, chapter_name, validator_name);
    push_str(&mut out, label);
    push_str(&mut out, shown);
    push_str(&mut out, "\n\nError:\n");
    push_str(&mut out, stderr);
    assert(out@ =~= locus(chapter_name@, validator_name@) + label@ + shown@ + "\n\nError:\n"@
        + stderr@);
    string_of(&out)
}

fn validation_failure_text(
    chapter_name: &str,
    validator_name: &str,
    visible: &str,
    stderr: &str,
    stdout: &str,
) -> (r: String)
    ensures
        r@ == validation_failure_message(
            chapter_name@,
            validator_name@,
            visible@,
            stderr@,
            stdout@,
        ),
{
    let mut out: Vec<char> = Vec::new();
    push_locus(&mut out, chapter_name, validator_name);
    push_str(&mut out, ":\n\nCode:\n");
    push_str(&mut out, visible);
    push_str(&mut out, "\n");
    let ghost head = out@;
    assert(head =~= locus(chapter_name@, validator_name@) + ":\n\nCode:\n"@ + visible@ + "\n"@);
    if !stderr.is_empty() {
        push_str(&mut out, "\nValidator stderr:\n");
        push_str(&mut out, stderr);
    }
    let ghost mid = out@;
    assert(mid =~= head + (if stderr@.len() > 0 {
        "\nValidator stderr:\n"@ + stderr@
    } else {
        Seq::empty()
    }));
    if !stdout.is_empty() {
        push_str(&mut out, "\nValidator stdout:\n");
        push_str(&mut out, stdout);
    }
    assert(out@ =~= mid + (if stdout@.len() > 0 {
        "\nValidator stdout:\n"@ + stdout@
    } else {
        Seq::empty()
    }));
    string_of(&out)
}

fn host_failure_text(chapter_name: &str, validator_name: &str, cause: &str) -> (r: String)
    ensures
        r@ == host_failure_message(chapter_name@, validator_name@, cause@),
{
    let mut out: Vec<char> = Vec::new();
    push_str(&mut out, "Host validator failed ");
    push_locus(&mut out, chapter_name, validator_name);
    push_str(&mut out, ": ");
    push_str(&mut out, cause);
    assert(out@ =~= host_failure_message(chapter_name@, validator_name@, cause@));
    string_of(&out)
}

/// Decides what to do next for `block`, which stands in the chapter called
/// `chapter_name`. `stage` is what the last step returned (`Stage::Start`
/// for a new block), and `event` tells how the action of that step went
/// (`Event::Begin` for a new block). The cache gains the session of a
/// sandbox that has just been started, and loses nothing.
pub fn step(
    config: &Config,
    chapter_name: &str,
    block: &ValidatorBlock,
    cache: &mut SandboxCache,
    stage: Stage,
    event: Event,
) -> (r: Step)
    ensures
        r.with_cache(final(cache)@) == step_spec(
            *config,
            chapter_name@,
            block@,
            old(cache)@,
            stage@,
            event@,
        ),
{
    let name = block.validator_name.as_str();
    let ghost before = cache@;
    if let (Stage::Start, Event::Begin) = (&stage, &event) {
        return begin_step_exec(config, block, Ghost(before));
    }
    let definition = match config.get_validator(name) {
        Ok(definition) => definition,
        Err(e) => {
            return fail(e);
        },
    };
    match (stage, event) {
        (Stage::AwaitScript, Event::ScriptMissing { path }) => fail(
            ValidatorError::ScriptNotFound { path },
        ),
        (Stage::AwaitScript, Event::ScriptFound { path }) => match cache.get(name) {
            Some(session) => sandbox_step_exec(
                chapter_name,
                block,
                definition,
                path,
                session,
                Ghost(before),
            ),
            None => {
                let (image_name, image_tag) = split_image(definition.container.as_str());
                Step {
                    stage: Stage::AwaitSandbox { script_path: path },
                    action: Action::StartSandbox {
                        image_name,
                        image_tag,
                        fixtures_dir: copy_opt(&config.fixtures_dir),
                    },
                }
            },
        },
        (Stage::AwaitSandbox { script_path }, Event::SandboxStarted { session }) => {
            cache.remember(name, session.as_str());
            match cache.get(name) {
                Some(bound) => sandbox_step_exec(
                    chapter_name,
                    block,
                    definition,
                    script_path,
                    bound,
                    Ghost(cache@),
                ),
                None => fail(ValidatorError::UnknownValidator { name: name.to_owned() }),
            }
        },
        (Stage::AwaitSandbox { .. }, Event::SandboxFailed { message }) => fail(
            ValidatorError::ContainerStartup {
                message: {
                    let mut out: Vec<char> = Vec::new();
                    push_str(&mut out, "Failed to start container '");
                    push_str(&mut out, definition.container.as_str());
                    push_str(&mut out, "': ");
                    push_str(&mut out, message.as_str());
                    assert(out@ =~= start_failure_message(definition.container@, message@));
                    string_of(&out)
                },
            },
        ),
        (Stage::AwaitSandbox { .. }, Event::FixturesMissing { path }) => fail(
            ValidatorError::FixturesError {
                message: three_part_message("fixtures_dir '", path.as_str(), "' does not exist"),
            },
        ),
        (Stage::AwaitSandbox { .. }, Event::FixturesNotDirectory { path }) => fail(
            ValidatorError::FixturesError {
                message: three_part_message(
                    "fixtures_dir '",
                    path.as_str(),
                    "' is not a directory",
                ),
            },
        ),
        (Stage::AwaitSandbox { .. }, Event::FixturesUnresolved { path, message }) => fail(
            ValidatorError::FixturesError {
                message: {
                    let mut out: Vec<char> = Vec::new();
                    push_str(&mut out, "fixtures_dir '");
                    push_str(&mut out, path.as_str());
                    push_str(&mut out, "' cannot be resolved: ");
                    push_str(&mut out, message.as_str());
                    assert(out@ =~= fixtures_unresolved_message(path@, message@));
                    string_of(&out)
                },
            },
        ),
        (Stage::AwaitSetup { script_path, session }, Event::ExecFinished(result)) => {
            if result.exit_code != 0 {
                let setup = match setup_script(block) {
                    Some(setup) => setup,
                    None => String::new(),
                };
                fail(
                    ValidatorError::SetupFailed {
                        exit_code: #[verifier::truncate]
                        (result.exit_code as i32),
                        message: failure_with_streams(
                            chapter_name,
                            name,
                            ":\n\nScript:\n",
                            setup.as_str(),
                            result.stderr.as_str(),
                        ),
                    },
                )
            } else {
                query_step_exec(chapter_name, block, definition, script_path, session, Ghost(before))
            }
        },
        (Stage::AwaitSetup { .. }, Event::ExecFailed { message }) => fail(
            ValidatorError::ContainerExec {
                message: two_part_message("Setup exec failed: ", message.as_str()),
            },
        ),
        (Stage::AwaitQuery { script_path }, Event::ExecFinished(result)) => {
            if result.exit_code != 0 {
                let query = query_text(block);
                fail(
                    ValidatorError::QueryFailed {
                        exit_code: #[verifier::truncate]
                        (result.exit_code as i32),
                        message: failure_with_streams(
                            chapter_name,
                            name,
                            ":\n\nSQL:\n",
                            query.as_str(),
                            result.stderr.as_str(),
                        ),
                    },
                )
            } else {
                Step {
                    stage: Stage::AwaitHost,
                    action: Action::RunHostValidator {
                        script_path,
                        stdin: result.stdout,
                        assertions: copy_opt(&block.markers.assertions),
                        expect: copy_opt(&block.markers.expect),
                        container_stderr: result.stderr,
                    },
                }
            }
        },
        (Stage::AwaitQuery { .. }, Event::ExecFailed { message }) => fail(
            ValidatorError::ContainerExec {
                message: two_part_message("Query exec failed: ", message.as_str()),
            },
        ),
        (Stage::AwaitHost, Event::HostFinished(result)) => {
            if result.exit_code != 0 {
                fail(
                    ValidatorError::ValidationFailed {
                        exit_code: result.exit_code,
                        message: validation_failure_text(
                            chapter_name,
                            name,
                            block.markers.visible_content.as_str(),
                            result.stderr.as_str(),
                            result.stdout.as_str(),
                        ),
                    },
                )
            } else {
                pass()
            }
        },
        (Stage::AwaitHost, Event::HostFailed { message }) => fail(
            ValidatorError::ValidationFailed {
                exit_code: -1,
                message: host_failure_text(chapter_name, name, message.as_str()),
            },
        ),
        _ => fail(
            ValidatorError::ContainerExec { message: "Unexpected event for this stage".to_owned() },
        ),
    }
}

} // verus!
