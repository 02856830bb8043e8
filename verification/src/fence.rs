//! The fenced code blocks of a chapter, gathered from the parser's events.

use vstd::prelude::*;
use crate::markdown::{MdEvent, MdEventKind};
use crate::text::{chars_of, push_all, string_of};

verus! {

/// A fenced code block as the events report it.
#[derive(Debug)]
pub struct Fence {
    /// The info string of the opening line.
    pub info: String,
    /// Byte offset of the opening fence.
    pub start: usize,
    /// Byte offset just behind the closing fence.
    pub end: usize,
    /// The byte range from the first to the last run of text inside the
    /// block; `None` where the block holds no text.
    pub inner: Option<(usize, usize)>,
    /// The text inside the block, as the events hand it over.
    pub text: String,
}

pub struct FenceView {
    pub info: Seq<char>,
    pub start: int,
    pub end: int,
    pub inner: Option<(int, int)>,
    pub text: Seq<char>,
}

impl View for Fence {
    type V = FenceView;

    open spec fn view(&self) -> FenceView {
        FenceView {
            info: self.info@,
            start: self.start as int,
            end: self.end as int,
            inner: match self.inner {
                Some((a, b)) => Some((a as int, b as int)),
                None => None,
            },
            text: self.text@,
        }
    }
}

pub open spec fn fence_views(fences: Seq<Fence>) -> Seq<FenceView> {
    Seq::new(fences.len(), |i: int| fences[i]@)
}

/// A block that has just opened: no text yet.
pub open spec fn opened(info: Seq<char>, start: int, end: int) -> FenceView {
    FenceView { info, start, end, inner: None, text: Seq::empty() }
}

/// A block after one more run of text: the text grows, and the inner range
/// reaches from where the first run began to where this one ends.
pub open spec fn extended(f: FenceView, text: Seq<char>, start: int, end: int) -> FenceView {
    FenceView {
        info: f.info,
        start: f.start,
        end: f.end,
        inner: Some(
            match f.inner {
                Some((first, _)) => (first, end),
                None => (start, end),
            },
        ),
        text: f.text + text,
    }
}

/// The fenced blocks that a run of events closes, given the block that is
/// open when the run begins. A fenced start opens a block, text inside an
/// open block belongs to it, and the end of a code block closes it. Events
/// outside an open block, and indented code blocks, yield nothing.
pub open spec fn scan_fences(events: Seq<MdEvent>, open: Option<FenceView>) -> Seq<FenceView>
    decreases events.len(),
{
    if events.len() == 0 {
        Seq::empty()
    } else {
        let ev = events[0];
        let rest = events.drop_first();
        match ev.kind {
            MdEventKind::FencedStart(info) => scan_fences(
                rest,
                Some(opened(info@, ev.start as int, ev.end as int)),
            ),
            MdEventKind::Text(text) => scan_fences(
                rest,
                match open {
                    Some(f) => Some(extended(f, text@, ev.start as int, ev.end as int)),
                    None => None,
                },
            ),
            MdEventKind::CodeEnd => match open {
                Some(f) => seq![f] + scan_fences(rest, None),
                None => scan_fences(rest, None),
            },
            _ => scan_fences(rest, open),
        }
    }
}

/// The fenced blocks of a whole event stream, in document order.
pub open spec fn fences_of(events: Seq<MdEvent>) -> Seq<FenceView> {
    scan_fences(events, None)
}

fn extend_fence(f: Fence, text: &String, start: usize, end: usize) -> (r: Fence)
    ensures
        r@ == extended(f@, text@, start as int, end as int),
{
    let mut chars = chars_of(f.text.as_str());
    push_all(&mut chars, &chars_of(text.as_str()));
    let inner = match f.inner {
        Some((first, _)) => (first, end),
        None => (start, end),
    };
    Fence { info: f.info, start: f.start, end: f.end, inner: Some(inner), text: string_of(&chars) }
}

pub open spec fn opt_fence_view(open: Option<Fence>) -> Option<FenceView> {
    match open {
        Some(f) => Some(f@),
        None => None,
    }
}

/// Gathers the fenced code blocks from the events of a chapter.
pub fn collect_fences(events: &Vec<MdEvent>) -> (r: Vec<Fence>)
    ensures
        fence_views(r@) == fences_of(events@),
{
    let mut out: Vec<Fence> = Vec::new();
    let mut open: Option<Fence> = None;
    let mut i: usize = 0;
    proof {
        assert(events@.skip(0) == events@);
        assert(fence_views(out@) + fences_of(events@) == fences_of(events@));
    }
    while i < events.len()
        invariant
            i <= events.len(),
            fences_of(events@) == fence_views(out@) + scan_fences(
                events@.skip(i as int),
                opt_fence_view(open),
            ),
        decreases events.len() - i,
    {
        let ghost rest = events@.skip(i as int);
        proof {
            assert(rest[0] == events@[i as int]);
            assert(rest.drop_first() == events@.skip(i + 1));
        }
        let ev = &events[i];
        match &ev.kind {
            MdEventKind::FencedStart(info) => {
                open = Some(
                    Fence {
                        info: info.clone(),
                        start: ev.start,
                        end: ev.end,
                        inner: None,
                        text: String::new(),
                    },
                );
            },
            MdEventKind::Text(text) => {
                open = match open {
                    Some(f) => Some(extend_fence(f, text, ev.start, ev.end)),
                    None => None,
                };
            },
            MdEventKind::CodeEnd => {
                match open {
                    Some(f) => {
                        proof {
                            assert(fence_views(out@.push(f)) == fence_views(out@) + seq![f@]);
                        }
                        out.push(f);
                    },
                    None => {},
                }
                open = None;
            },
            _ => {},
        }
        i += 1;
    }
    proof {
        assert(fence_views(out@) + Seq::<FenceView>::empty() == fence_views(out@));
    }
    out
}

} // verus!
