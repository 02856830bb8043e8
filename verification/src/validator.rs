//! What a validator is given to work on.

use vstd::prelude::*;
use crate::parser::CodeBlock;

verus! {

/// The parts of a code block that a validator reads.
#[derive(Debug, Clone)]
pub struct ValidatorInput {
    /// What prepares the sandbox.
    pub setup: Option<String>,
    /// The content to validate.
    pub content: String,
    /// The assertions to check.
    pub assertions: Option<String>,
    /// The output that is expected.
    pub expect: Option<String>,
}

fn copy_opt(o: &Option<String>) -> (r: Option<String>)
    ensures
        r == *o,
{
    match o {
        Some(s) => Some(s.clone()),
        None => None,
    }
}

impl From<&CodeBlock> for ValidatorInput {
    fn from(block: &CodeBlock) -> (r: Self) {
        ValidatorInput {
            setup: copy_opt(&block.setup),
            content: block.content.clone(),
            assertions: copy_opt(&block.assertions),
            expect: copy_opt(&block.expect),
        }
    }
}

impl vstd::std_specs::convert::FromSpecImpl<&CodeBlock> for ValidatorInput {
    open spec fn obeys_from_spec() -> bool {
        true
    }

    /// The input holds the block's setup, content, assertions and expected
    /// output, and nothing else of it.
    open spec fn from_spec(block: &CodeBlock) -> Self {
        ValidatorInput {
            setup: block.setup,
            content: block.content,
            assertions: block.assertions,
            expect: block.expect,
        }
    }
}

} // verus!
