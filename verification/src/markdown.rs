//! The Markdown events of a chapter, as the CommonMark parser reports them.

use pulldown_cmark::{CodeBlockKind, Event, Parser, Tag, TagEnd};
use vstd::prelude::*;

verus! {

/// What an event of the Markdown parser is, as far as the library looks.
#[derive(Debug, Clone)]
pub enum MdEventKind {
    /// A fenced code block opens; the payload is its info string.
    FencedStart(String),
    /// An indented code block opens.
    IndentedStart,
    /// A code block, fenced or indented, closes.
    CodeEnd,
    /// A run of text, inside a code block or elsewhere.
    Text(String),
    /// Any other event.
    Other,
}

/// One event with the byte range of the source it covers.
#[derive(Debug, Clone)]
pub struct MdEvent {
    pub kind: MdEventKind,
    /// Byte offset in the source where the event's range begins.
    pub start: usize,
    /// Byte offset in the source where the event's range ends.
    pub end: usize,
}

/// The events that the CommonMark parser yields for a source text, in
/// document order, each with its byte range.
pub uninterp spec fn markdown_events(content: Seq<char>) -> Seq<MdEvent>;

/// Runs `pulldown_cmark::Parser::new(content).into_offset_iter()` to its end
/// and hands each event over with its range. The parser is a function of the
/// source text alone; nothing else is claimed of what it yields.
#[verifier::external_body]
pub(crate) fn parse_markdown(content: &str) -> (events: Vec<MdEvent>)
    ensures
        events@ == markdown_events(content@),
{
    let mut events = Vec::new();
    for (event, range) in Parser::new(content).into_offset_iter() {
        let kind = match event {
            Event::Start(Tag::CodeBlock(CodeBlockKind::Fenced(info))) => {
                MdEventKind::FencedStart(info.to_string())
            },
            Event::Start(Tag::CodeBlock(CodeBlockKind::Indented)) => MdEventKind::IndentedStart,
            Event::End(TagEnd::CodeBlock) => MdEventKind::CodeEnd,
            Event::Text(text) => MdEventKind::Text(text.to_string()),
            _ => MdEventKind::Other,
        };
        events.push(MdEvent { kind, start: range.start, end: range.end });
    }
    events
}

} // verus!
