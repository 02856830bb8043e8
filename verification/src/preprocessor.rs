//! The preprocessor's own decisions on a chapter: which fenced blocks are
//! validated, what their validator runs, and what the chapter looks like
//! afterwards.

use vstd::prelude::*;
use crate::config::ValidatorConfig;
use crate::error::ValidatorError;
use crate::fence::{collect_fences, fence_views, fences_of, Fence, FenceView};
use crate::markdown::{markdown_events, parse_markdown, MdEvent};
use crate::parser::{
    extract_markers, extract_markers_spec, parse_fence_info, parse_info_spec, ExtractedMarkers,
    MarkersView,
};
use crate::rewrite::{rewrite_chapter, rewrite_spec};
use crate::text::{chars_of, seq_eq};

verus! {

/// The preprocessor. It holds no state of its own.
#[derive(Debug, Clone, Copy)]
pub struct ValidatorPreprocessor;

/// A code block that names a validator.
#[derive(Debug)]
pub struct ValidatorBlock {
    /// The name of the validator; never empty.
    pub validator_name: String,
    /// The markers of the block's body.
    pub markers: ExtractedMarkers,
    /// Whether validation is skipped.
    pub skip: bool,
    /// Whether the block is deleted from the output.
    pub hidden: bool,
}

pub struct BlockView {
    pub validator_name: Seq<char>,
    pub markers: MarkersView,
    pub skip: bool,
    pub hidden: bool,
}

impl View for ValidatorBlock {
    type V = BlockView;

    open spec fn view(&self) -> BlockView {
        BlockView {
            validator_name: self.validator_name@,
            markers: self.markers@,
            skip: self.skip,
            hidden: self.hidden,
        }
    }
}

pub open spec fn block_views(blocks: Seq<ValidatorBlock>) -> Seq<BlockView> {
    Seq::new(blocks.len(), |i: int| blocks[i]@)
}

/// The validator block that a fenced block is, if its info string names a
/// validator.
pub open spec fn block_of(f: FenceView) -> Option<BlockView> {
    let info = parse_info_spec(f.info);
    match info.validator {
        Some(name) => Some(
            BlockView {
                validator_name: name,
                markers: extract_markers_spec(f.text),
                skip: info.skip,
                hidden: info.hidden,
            },
        ),
        None => None,
    }
}

/// The validator blocks among fenced blocks, in document order.
pub open spec fn blocks_of(fences: Seq<FenceView>) -> Seq<BlockView>
    decreases fences.len(),
{
    if fences.len() == 0 {
        Seq::empty()
    } else {
        let before = blocks_of(fences.drop_last());
        match block_of(fences.last()) {
            Some(b) => before.push(b),
            None => before,
        }
    }
}

/// The validator blocks of an event stream.
pub open spec fn validator_blocks_spec(events: Seq<MdEvent>) -> Seq<BlockView> {
    blocks_of(fences_of(events))
}

/// The command that runs a block's content in the sandbox: the configured
/// one, or else the default for the validator's name.
pub open spec fn exec_command_spec(name: Seq<char>, config: ValidatorConfig) -> Seq<char> {
    match config.exec_command {
        Some(command) => command@,
        None => if name == "sqlite"@ {
            "sqlite3 -json /tmp/test.db"@
        } else if name == "osquery"@ {
            "osqueryi --json"@
        } else {
            "cat"@
        },
    }
}

fn block_of_fence(f: &Fence) -> (r: Option<ValidatorBlock>)
    ensures
        match r {
            Some(b) => block_of(f@) == Some(b@),
            None => block_of(f@) is None,
        },
{
    let info = parse_fence_info(f.info.as_str());
    match info.validator {
        Some(validator_name) => Some(
            ValidatorBlock {
                validator_name,
                markers: extract_markers(f.text.as_str()),
                skip: info.skip,
                hidden: info.hidden,
            },
        ),
        None => None,
    }
}

/// Every validator block names a validator.
pub proof fn lemma_blocks_named(fences: Seq<FenceView>)
    ensures
        forall|i: int|
            0 <= i < blocks_of(fences).len() ==> (#[trigger] blocks_of(
                fences,
            )[i]).validator_name.len() > 0,
    decreases fences.len(),
{
    if fences.len() > 0 {
        lemma_blocks_named(fences.drop_last());
    }
}

/// The validator blocks of a chapter, given the events of its parse.
pub fn validator_blocks(events: &Vec<MdEvent>) -> (r: Vec<ValidatorBlock>)
    ensures
        block_views(r@) == validator_blocks_spec(events@),
        forall|i: int| 0 <= i < r@.len() ==> (#[trigger] r@[i]).validator_name@.len() > 0,
{
    let fences = collect_fences(events);
    let mut out: Vec<ValidatorBlock> = Vec::new();
    let mut i: usize = 0;
    let ghost all = fence_views(fences@);
    assert(all.take(0) =~= Seq::<FenceView>::empty());
    assert(block_views(out@) =~= Seq::<BlockView>::empty());
    while i < fences.len()
        invariant
            i <= fences.len(),
            all == fence_views(fences@),
            block_views(out@) == blocks_of(all.take(i as int)),
        decreases fences.len() - i,
    {
        proof {
            let next = all.take(i + 1);
            assert(next.drop_last() == all.take(i as int));
            assert(next.last() == fences@[i as int]@);
        }
        match block_of_fence(&fences[i]) {
            Some(b) => {
                proof {
                    assert(block_views(out@.push(b)) == block_views(out@).push(b@));
                }
                out.push(b);
            },
            None => {},
        }
        i += 1;
    }
    proof {
        assert(all.take(fences.len() as int) == all);
        lemma_blocks_named(all);
        assert forall|i: int| 0 <= i < out@.len() implies (#[trigger] out@[i]).validator_name@.len()
            > 0 by {
            assert(block_views(out@)[i] == out@[i]@);
        }
    }
    out
}

impl ValidatorPreprocessor {
    /// A preprocessor.
    #[must_use]
    pub fn new() -> (r: Self) {
        ValidatorPreprocessor
    }

    /// The name under which the build tool knows this preprocessor.
    pub fn name(&self) -> (r: &'static str)
        ensures
            r@ == "validator"@,
    {
        "validator"
    }

    /// Every renderer is supported: what is produced is Markdown, whatever
    /// becomes of it.
    pub fn supports_renderer(&self, renderer: &str) -> (r: Result<bool, ValidatorError>)
        ensures
            r == Ok::<bool, ValidatorError>(true),
    {
        Ok(true)
    }

    /// The command that runs the content of a block in the sandbox of the
    /// validator called `validator_name`.
    pub fn get_exec_command(validator_name: &str, config: &ValidatorConfig) -> (r: String)
        ensures
            r@ == exec_command_spec(validator_name@, *config),
    {
        match &config.exec_command {
            Some(command) => command.clone(),
            None => {
                let name = chars_of(validator_name);
                if seq_eq(&name, &chars_of("sqlite")) {
                    "sqlite3 -json /tmp/test.db".to_owned()
                } else if seq_eq(&name, &chars_of("osquery")) {
                    "osqueryi --json".to_owned()
                } else {
                    "cat".to_owned()
                }
            },
        }
    }

    /// The code blocks of a chapter that name a validator, in document
    /// order.
    pub fn find_validator_blocks(content: &str) -> (r: Vec<ValidatorBlock>)
        ensures
            block_views(r@) == validator_blocks_spec(markdown_events(content@)),
            forall|i: int| 0 <= i < r@.len() ==> (#[trigger] r@[i]).validator_name@.len() > 0,
    {
        let events = parse_markdown(content);
        validator_blocks(&events)
    }

    /// The chapter as it is published: hidden validator blocks deleted, the
    /// markers of the other validator blocks stripped, all else as it was.
    pub fn strip_markers_from_chapter(content: &str) -> (r: String)
        ensures
            r@ == rewrite_spec(content@, markdown_events(content@)),
    {
        let events = parse_markdown(content);
        rewrite_chapter(content, &events)
    }
}

impl Default for ValidatorPreprocessor {
    fn default() -> (r: Self) {
        ValidatorPreprocessor
    }
}

} // verus!
