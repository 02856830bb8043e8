//! One chapter: whether it is validated at all, and the run of the
//! dispatcher over its blocks in document order.

use vstd::prelude::*;
use crate::cache::SandboxCache;
use crate::config::Config;
use crate::dispatcher::{
    passed, step, step_spec, Action, ActionView, Event, EventView, Stage, StageView,
};
use crate::error::{ErrorView, ValidatorError};
use crate::markdown::{markdown_events, parse_markdown, MdEvent};
use crate::rewrite::{rewrite_chapter, rewrite_spec};
use crate::preprocessor::{
    block_views, validator_blocks, validator_blocks_spec, BlockView, ValidatorBlock,
};

verus! {

/// What is to be done with a chapter.
#[derive(Debug)]
pub enum ChapterPlan {
    /// The chapter is empty or holds no validator block: it stays as it is.
    Untouched,
    /// A block of the chapter is marked both `hidden` and `skip`.
    Rejected(ValidatorError),
    /// These blocks are validated in this order, and the chapter is rewritten
    /// when all of them have passed.
    Validate(Vec<ValidatorBlock>),
}

pub enum PlanView {
    Untouched,
    Rejected(ErrorView),
    Validate(Seq<BlockView>),
}

impl View for ChapterPlan {
    type V = PlanView;

    open spec fn view(&self) -> PlanView {
        match *self {
            ChapterPlan::Untouched => PlanView::Untouched,
            ChapterPlan::Rejected(e) => PlanView::Rejected(e@),
            ChapterPlan::Validate(blocks) => PlanView::Validate(block_views(blocks@)),
        }
    }
}

/// A block with both modifiers, which exclude each other.
pub open spec fn has_conflict(blocks: Seq<BlockView>) -> bool {
    exists|i: int| 0 <= i < blocks.len() && (#[trigger] blocks[i]).skip && blocks[i].hidden
}

/// The plan for a chapter with the given source and events.
pub open spec fn plan_spec(content: Seq<char>, events: Seq<MdEvent>) -> PlanView {
    let blocks = validator_blocks_spec(events);
    if content.len() == 0 || blocks.len() == 0 {
        PlanView::Untouched
    } else if has_conflict(blocks) {
        PlanView::Rejected(ErrorView::MutuallyExclusiveAttributes)
    } else {
        PlanView::Validate(blocks)
    }
}

fn conflict_among(blocks: &Vec<ValidatorBlock>) -> (r: bool)
    ensures
        r == has_conflict(block_views(blocks@)),
{
    let mut i: usize = 0;
    while i < blocks.len()
        invariant
            i <= blocks.len(),
            forall|k: int| 0 <= k < i ==> !((#[trigger] block_views(blocks@)[k]).skip
                && block_views(blocks@)[k].hidden),
        decreases blocks.len() - i,
    {
        if blocks[i].skip && blocks[i].hidden {
            assert(block_views(blocks@)[i as int].skip && block_views(blocks@)[i as int].hidden);
            return true;
        }
        i += 1;
    }
    false
}

/// Plans a chapter, given the events of its parse. An empty chapter and one
/// without validator blocks are left alone; a block marked both `hidden` and
/// `skip` rejects the chapter before anything is validated.
pub fn plan_chapter_with_events(content: &str, events: &Vec<MdEvent>) -> (r: ChapterPlan)
    ensures
        r@ == plan_spec(content@, events@),
{
    if content.is_empty() {
        return ChapterPlan::Untouched;
    }
    let blocks = validator_blocks(events);
    if blocks.len() == 0 {
        return ChapterPlan::Untouched;
    }
    if conflict_among(&blocks) {
        return ChapterPlan::Rejected(ValidatorError::MutuallyExclusiveAttributes);
    }
    ChapterPlan::Validate(blocks)
}

/// Plans a chapter from its source.
pub fn plan_chapter(content: &str) -> (r: ChapterPlan)
    ensures
        r@ == plan_spec(content@, markdown_events(content@)),
{
    let events = parse_markdown(content);
    plan_chapter_with_events(content, &events)
}

/// What becomes of a chapter's text when its validation has ended: the
/// rewritten text where every block has passed, and nothing where a block
/// has failed, so that a failed chapter keeps the text it has.
pub open spec fn finish_spec(content: Seq<char>, events: Seq<MdEvent>, passed: bool) -> Option<
    Seq<char>,
> {
    if passed {
        Some(rewrite_spec(content, events))
    } else {
        None
    }
}

pub open spec fn opt_text(o: Option<String>) -> Option<Seq<char>> {
    match o {
        Some(t) => Some(t@),
        None => None,
    }
}

/// The new text of a chapter whose validation ended with `outcome`, given
/// the events of its parse.
pub fn finish_chapter_with_events(
    content: &str,
    events: &Vec<MdEvent>,
    outcome: &Result<(), ValidatorError>,
) -> (r: Option<String>)
    ensures
        opt_text(r) == finish_spec(content@, events@, outcome is Ok),
{
    match outcome {
        Ok(_) => Some(rewrite_chapter(content, events)),
        Err(_) => None,
    }
}

/// The new text of a chapter whose validation ended with `outcome`: the
/// chapter is rewritten only when every block has passed.
pub fn finish_chapter(content: &str, outcome: &Result<(), ValidatorError>) -> (r: Option<String>)
    ensures
        opt_text(r) == finish_spec(content@, markdown_events(content@), outcome is Ok),
        outcome is Ok ==> (r matches Some(t) && t@ == rewrite_spec(
            content@,
            markdown_events(content@),
        )),
        outcome is Err ==> r is None,
{
    let events = parse_markdown(content);
    finish_chapter_with_events(content, &events, outcome)
}

/// Where the validation of a chapter stands: the block at `index` is at
/// `stage`; the blocks before it have passed.
#[derive(Debug)]
pub struct ChapterRun {
    pub blocks: Vec<ValidatorBlock>,
    pub index: usize,
    pub stage: Stage,
}

pub struct RunView {
    pub index: int,
    pub stage: StageView,
    pub action: ActionView,
    pub cache: Map<Seq<char>, Seq<char>>,
}

/// The run of the dispatcher over the blocks from `index` on. The event is
/// handed to the block at `index`. A block that passes makes way for the
/// next one, which begins at once; the first action that needs the caller,
/// or the first error, ends the run for now. When no block is left the
/// chapter has passed.
pub open spec fn run_spec(
    config: Config,
    chapter: Seq<char>,
    blocks: Seq<BlockView>,
    index: int,
    cache: Map<Seq<char>, Seq<char>>,
    stage: StageView,
    event: EventView,
) -> RunView
    decreases blocks.len() - index,
{
    if index < 0 || index >= blocks.len() {
        RunView { index, stage: StageView::Done, action: ActionView::Finish(Ok(())), cache }
    } else {
        let s = step_spec(config, chapter, blocks[index], cache, stage, event);
        if s.action == ActionView::Finish(Ok(())) {
            run_spec(
                config,
                chapter,
                blocks,
                index + 1,
                s.cache,
                StageView::Start,
                EventView::Begin,
            )
        } else {
            RunView { index, stage: s.stage, action: s.action, cache: s.cache }
        }
    }
}

impl ChapterRun {
    /// A run that has not begun.
    pub fn new(blocks: Vec<ValidatorBlock>) -> (r: Self)
        ensures
            r.blocks == blocks,
            r.index == 0,
            r.stage@ == StageView::Start,
    {
        ChapterRun { blocks, index: 0, stage: Stage::Start }
    }
}

/// Carries the validation of a chapter on. `event` is `Event::Begin` for a
/// run that has not begun, and else the outcome of the action that the last
/// call returned. The action returned is `Finish(Ok)` when every block has
/// passed, `Finish(Err)` at the first block that fails, and else the next
/// thing for the caller to do.
pub fn advance(
    config: &Config,
    chapter_name: &str,
    cache: &mut SandboxCache,
    run: ChapterRun,
    event: Event,
) -> (r: (ChapterRun, Action))
    ensures
        r.0.blocks == run.blocks,
        (RunView {
            index: r.0.index as int,
            stage: r.0.stage@,
            action: r.1@,
            cache: final(cache)@,
        }) == run_spec(
            *config,
            chapter_name@,
            block_views(run.blocks@),
            run.index as int,
            old(cache)@,
            run.stage@,
            event@,
        ),
{
    let ChapterRun { blocks, index, stage } = run;
    let mut at = index;
    let mut now = stage;
    let mut news = event;
    let ghost all = block_views(blocks@);
    loop
        invariant
            blocks == run.blocks,
            all == block_views(blocks@),
            run_spec(
                *config,
                chapter_name@,
                all,
                run.index as int,
                old(cache)@,
                run.stage@,
                event@,
            ) == run_spec(*config, chapter_name@, all, at as int, cache@, now@, news@),
        decreases blocks.len() - at,
    {
        if at >= blocks.len() {
            return (
                ChapterRun { blocks, index: at, stage: Stage::Done },
                Action::Finish(Ok(())),
            );
        }
        assert(all[at as int] == blocks@[at as int]@);
        let s = step(config, chapter_name, &blocks[at], cache, now, news);
        match s.action {
            Action::Finish(Ok(_)) => {
                at += 1;
                now = Stage::Start;
                news = Event::Begin;
            },
            action => {
                return (ChapterRun { blocks, index: at, stage: s.stage }, action);
            },
        }
    }
}

/// A skipped block is finished by its first step, which asks for nothing
/// and leaves the cache alone: no sandbox is started or used for it. It
/// passes unless it is marked `hidden` too, which is an error.
pub proof fn lemma_skip_needs_no_sandbox(
    config: Config,
    chapter: Seq<char>,
    block: BlockView,
    cache: Map<Seq<char>, Seq<char>>,
)
    requires
        block.skip,
    ensures
        ({
            let s = step_spec(config, chapter, block, cache, StageView::Start, EventView::Begin);
            &&& s.stage == StageView::Done
            &&& s.action is Finish
            &&& s.cache == cache
            &&& !block.hidden ==> s == passed(cache)
            &&& block.hidden ==> s.action == ActionView::Finish(
                Err(crate::error::ErrorView::MutuallyExclusiveAttributes),
            )
        }),
{
}

/// A run over blocks that are all skipped passes without a single action
/// for the caller, and the cache is as it was.
pub proof fn lemma_skipped_blocks_pass(
    config: Config,
    chapter: Seq<char>,
    blocks: Seq<BlockView>,
    index: int,
    cache: Map<Seq<char>, Seq<char>>,
)
    requires
        0 <= index,
        forall|i: int| index <= i < blocks.len() ==> (#[trigger] blocks[i]).skip && !blocks[i].hidden,
    ensures
        run_spec(config, chapter, blocks, index, cache, StageView::Start, EventView::Begin).action
            == ActionView::Finish(Ok(())),
        run_spec(config, chapter, blocks, index, cache, StageView::Start, EventView::Begin).cache
            == cache,
    decreases blocks.len() - index,
{
    if index < blocks.len() {
        lemma_skip_needs_no_sandbox(config, chapter, blocks[index], cache);
        lemma_skipped_blocks_pass(config, chapter, blocks, index + 1, cache);
    }
}

/// Every binding of `earlier` is a binding of `later`.
pub open spec fn extends(later: Map<Seq<char>, Seq<char>>, earlier: Map<Seq<char>, Seq<char>>) -> bool {
    forall|name: Seq<char>| #[trigger]
        earlier.contains_key(name) ==> later.contains_key(name) && later[name] == earlier[name]
}

/// A stage that holds a session holds the one that the cache binds to the
/// block's validator.
pub open spec fn stage_agrees(
    stage: StageView,
    name: Seq<char>,
    cache: Map<Seq<char>, Seq<char>>,
) -> bool {
    stage matches StageView::AwaitSetup { session, .. } ==> cache.contains_key(name) && cache[name]
        == session
}

/// The session that an action runs a command in.
pub open spec fn exec_session(action: ActionView) -> Option<Seq<char>> {
    match action {
        ActionView::Exec { session, .. } => Some(session),
        _ => None,
    }
}

/// A step keeps every session of the cache; it starts no sandbox for a
/// validator that has one; and a command that it sends into a sandbox goes
/// to the session that the cache binds to the block's validator.
pub proof fn lemma_step_keeps_sessions(
    config: Config,
    chapter: Seq<char>,
    block: BlockView,
    cache: Map<Seq<char>, Seq<char>>,
    stage: StageView,
    event: EventView,
)
    requires
        stage_agrees(stage, block.validator_name, cache),
    ensures
        ({
            let s = step_spec(config, chapter, block, cache, stage, event);
            &&& extends(s.cache, cache)
            &&& stage_agrees(s.stage, block.validator_name, s.cache)
            &&& cache.contains_key(block.validator_name) ==> !(s.action is StartSandbox)
            &&& exec_session(s.action) matches Some(session) ==> s.cache.contains_key(
                block.validator_name,
            ) && s.cache[block.validator_name] == session
        }),
{
}

/// Two blocks that name the same validator run in the same session: once a
/// command of the first has gone to a session, and whatever steps were taken
/// in between, a command of the second goes to that session too.
pub proof fn lemma_same_validator_same_session(
    config: Config,
    chapter: Seq<char>,
    first: BlockView,
    second: BlockView,
    cache1: Map<Seq<char>, Seq<char>>,
    stage1: StageView,
    event1: EventView,
    cache2: Map<Seq<char>, Seq<char>>,
    stage2: StageView,
    event2: EventView,
)
    requires
        first.validator_name == second.validator_name,
        stage_agrees(stage1, first.validator_name, cache1),
        stage_agrees(stage2, second.validator_name, cache2),
        extends(cache2, step_spec(config, chapter, first, cache1, stage1, event1).cache),
        exec_session(step_spec(config, chapter, first, cache1, stage1, event1).action) is Some,
        exec_session(step_spec(config, chapter, second, cache2, stage2, event2).action) is Some,
    ensures
        exec_session(step_spec(config, chapter, second, cache2, stage2, event2).action)
            == exec_session(step_spec(config, chapter, first, cache1, stage1, event1).action),
{
    lemma_step_keeps_sessions(config, chapter, first, cache1, stage1, event1);
    lemma_step_keeps_sessions(config, chapter, second, cache2, stage2, event2);
    let s1 = step_spec(config, chapter, first, cache1, stage1, event1);
    assert(s1.cache.contains_key(first.validator_name));
}

} // verus!
