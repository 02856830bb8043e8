//! The chapter rewriter: edits on the source text, never a reconstruction
//! from events. Hidden validator blocks are deleted with their fences, the
//! bodies of the other validator blocks lose their markers, and every other
//! character of the chapter stays where it is.

use vstd::prelude::*;
use crate::fence::{collect_fences, fence_views, fences_of, Fence, FenceView};
use crate::markdown::MdEvent;
use crate::parser::{parse_fence_info, parse_info_spec};
use crate::text::{chars_of, push_all, slice_of, string_of, trim, trim_chars};
use crate::transpiler::{strip_markers_chars, strip_markers_spec};

verus! {

/// The number of bytes that a character takes in UTF-8.
pub open spec fn utf8_width(c: char) -> int {
    let n = c as u32;
    if n < 0x80 {
        1
    } else if n < 0x800 {
        2
    } else if n < 0x10000 {
        3
    } else {
        4
    }
}

/// The number of bytes that a text takes in UTF-8.
pub open spec fn byte_len(s: Seq<char>) -> int
    decreases s.len(),
{
    if s.len() == 0 {
        0
    } else {
        byte_len(s.drop_last()) + utf8_width(s.last())
    }
}

/// The first `i` characters of `s` take `offset` bytes.
pub open spec fn is_char_offset(s: Seq<char>, offset: int, i: int) -> bool {
    0 <= i <= s.len() && byte_len(s.take(i)) == offset
}

/// The index of the character of `s` that begins at byte `offset`; the length
/// of `s` for the offset of its end. `None` for an offset inside a character
/// or beyond the end.
pub open spec fn char_index(s: Seq<char>, offset: int) -> Option<int> {
    if exists|i: int| is_char_offset(s, offset, i) {
        Some(choose|i: int| is_char_offset(s, offset, i))
    } else {
        None
    }
}

pub proof fn lemma_byte_len_step(s: Seq<char>, i: int)
    requires
        0 <= i < s.len(),
    ensures
        byte_len(s.take(i + 1)) == byte_len(s.take(i)) + utf8_width(s[i]),
        utf8_width(s[i]) >= 1,
{
    assert(s.take(i + 1).drop_last() == s.take(i));
}

/// A longer prefix takes more bytes.
pub proof fn lemma_byte_len_grows(s: Seq<char>, i: int, j: int)
    requires
        0 <= i <= j <= s.len(),
    ensures
        byte_len(s.take(j)) >= byte_len(s.take(i)) + (j - i),
    decreases j - i,
{
    if i < j {
        lemma_byte_len_grows(s, i, j - 1);
        lemma_byte_len_step(s, j - 1);
    }
}

/// The index that an offset falls on is unique.
pub proof fn lemma_char_index_is(s: Seq<char>, offset: int, i: int)
    requires
        is_char_offset(s, offset, i),
    ensures
        char_index(s, offset) == Some(i),
{
    let j = choose|j: int| is_char_offset(s, offset, j);
    if j < i {
        lemma_byte_len_grows(s, j, i);
    } else if i < j {
        lemma_byte_len_grows(s, i, j);
    }
}

fn width_of(c: char) -> (w: usize)
    ensures
        w == utf8_width(c),
        1 <= w <= 4,
{
    let n: u32 = c as u32;
    if n < 0x80 {
        1
    } else if n < 0x800 {
        2
    } else if n < 0x10000 {
        3
    } else {
        4
    }
}

/// Turns a byte offset into the index of the character that begins there.
pub fn char_index_exec(content: &Vec<char>, offset: usize) -> (r: Option<usize>)
    ensures
        match r {
            Some(i) => char_index(content@, offset as int) == Some(i as int) && i <= content.len(),
            None => char_index(content@, offset as int) is None,
        },
{
    let mut i: usize = 0;
    let mut acc: usize = 0;
    assert(content@.take(0) =~= Seq::<char>::empty());
    while i < content.len() && acc < offset
        invariant
            i <= content.len(),
            acc <= offset,
            acc == byte_len(content@.take(i as int)),
        decreases content.len() - i,
    {
        let w = width_of(content[i]);
        proof {
            lemma_byte_len_step(content@, i as int);
        }
        if offset - acc < w {
            proof {
                assert forall|j: int| !is_char_offset(content@, offset as int, j) by {
                    if 0 <= j <= i {
                        lemma_byte_len_grows(content@, j, i as int);
                    } else if i < j <= content.len() {
                        lemma_byte_len_grows(content@, i + 1, j);
                    }
                }
            }
            return None;
        }
        acc += w;
        i += 1;
    }
    if acc == offset {
        proof {
            lemma_char_index_is(content@, offset as int, i as int);
        }
        Some(i)
    } else {
        proof {
            assert forall|j: int| !is_char_offset(content@, offset as int, j) by {
                if 0 <= j <= i {
                    lemma_byte_len_grows(content@, j, i as int);
                }
            }
        }
        None
    }
}

/// Where the line that holds position `pos` begins.
pub open spec fn line_start(s: Seq<char>, pos: int) -> int
    decreases pos,
{
    if pos <= 0 {
        0
    } else if pos <= s.len() && s[pos - 1] == '\n' {
        pos
    } else {
        line_start(s, pos - 1)
    }
}

/// The position behind the line ending that begins at `pos`, if one begins
/// there: a line feed, or a carriage return and a line feed.
pub open spec fn past_newline(s: Seq<char>, pos: int) -> int {
    if 0 <= pos < s.len() && s[pos] == '\n' {
        pos + 1
    } else if 0 <= pos && pos + 1 < s.len() && s[pos] == '\r' && s[pos + 1] == '\n' {
        pos + 2
    } else {
        pos
    }
}

pub proof fn lemma_line_start_bounds(s: Seq<char>, pos: int)
    requires
        0 <= pos,
    ensures
        0 <= line_start(s, pos) <= pos,
    decreases pos,
{
    if pos > 0 && !(pos <= s.len() && s[pos - 1] == '\n') {
        lemma_line_start_bounds(s, pos - 1);
    }
}

fn line_start_exec(content: &Vec<char>, pos: usize) -> (r: usize)
    requires
        pos <= content.len(),
    ensures
        r == line_start(content@, pos as int),
        r <= pos,
{
    let mut p: usize = pos;
    while p > 0 && content[p - 1] != '\n'
        invariant
            p <= pos <= content.len(),
            line_start(content@, pos as int) == line_start(content@, p as int),
        decreases p,
    {
        p -= 1;
    }
    p
}

fn past_newline_exec(content: &Vec<char>, pos: usize) -> (r: usize)
    requires
        pos <= content.len(),
    ensures
        r == past_newline(content@, pos as int),
        pos <= r <= content.len(),
{
    if pos < content.len() && content[pos] == '\n' {
        pos + 1
    } else if pos < content.len() && content.len() - pos > 1 && content[pos] == '\r' && content[pos
        + 1] == '\n' {
        pos + 2
    } else {
        pos
    }
}

/// One replacement of a range of the source, in characters.
#[derive(Debug)]
pub struct Edit {
    /// Index of the first character that is replaced.
    pub start: usize,
    /// Index behind the last character that is replaced.
    pub end: usize,
    /// What stands there afterwards.
    pub replacement: Vec<char>,
}

pub struct EditView {
    pub start: int,
    pub end: int,
    pub replacement: Seq<char>,
}

impl View for Edit {
    type V = EditView;

    open spec fn view(&self) -> EditView {
        EditView { start: self.start as int, end: self.end as int, replacement: self.replacement@ }
    }
}

pub open spec fn edit_views(edits: Seq<Edit>) -> Seq<EditView> {
    Seq::new(edits.len(), |i: int| edits[i]@)
}

/// The body of a validator block as it is published: without markers and
/// hidden lines, trimmed, and ended by one line feed unless nothing is left.
pub open spec fn published_body(inner: Seq<char>) -> Seq<char> {
    let body = trim(strip_markers_spec(inner));
    if body.len() == 0 {
        body
    } else {
        body.push('\n')
    }
}

/// The byte range from `from` to `to` as a range of characters of `s`.
pub open spec fn char_range(s: Seq<char>, from: int, to: int) -> Option<(int, int)> {
    match (char_index(s, from), char_index(s, to)) {
        (Some(a), Some(b)) => if a <= b {
            Some((a, b))
        } else {
            None
        },
        _ => None,
    }
}

/// The edit that a fenced block calls for. A block that names no validator
/// calls for none. A hidden validator block is deleted from the start of the
/// line of its opening fence through the line ending behind its closing
/// fence. The text inside any other validator block is replaced by its
/// published form. A block whose offsets do not fall on characters of the
/// source calls for none.
pub open spec fn fence_edit(content: Seq<char>, f: FenceView) -> Option<EditView> {
    let info = parse_info_spec(f.info);
    if info.validator is None {
        None
    } else if info.hidden {
        match char_range(content, f.start, f.end) {
            Some((a, b)) => Some(
                EditView {
                    start: line_start(content, a),
                    end: past_newline(content, b),
                    replacement: Seq::empty(),
                },
            ),
            None => None,
        }
    } else {
        match f.inner {
            Some((from, to)) => match char_range(content, from, to) {
                Some((a, b)) => Some(
                    EditView {
                        start: a,
                        end: b,
                        replacement: published_body(content.subrange(a, b)),
                    },
                ),
                None => None,
            },
            None => None,
        }
    }
}

/// The edits of a chapter, in document order. A block whose edit would begin
/// before `cursor`, the end of the edit before it, is passed over, so that no
/// two edits overlap.
pub open spec fn plan_edits(content: Seq<char>, fences: Seq<FenceView>, cursor: int) -> Seq<
    EditView,
>
    decreases fences.len(),
{
    if fences.len() == 0 {
        Seq::empty()
    } else {
        match fence_edit(content, fences[0]) {
            Some(e) => if cursor <= e.start {
                seq![e] + plan_edits(content, fences.drop_first(), e.end)
            } else {
                plan_edits(content, fences.drop_first(), cursor)
            },
            None => plan_edits(content, fences.drop_first(), cursor),
        }
    }
}

/// Edits that lie between `lo` and `hi`, each before the next.
pub open spec fn edits_ordered(edits: Seq<EditView>, lo: int, hi: int) -> bool {
    &&& forall|i: int|
        0 <= i < edits.len() ==> lo <= (#[trigger] edits[i]).start <= edits[i].end <= hi
    &&& forall|i: int, j: int|
        0 <= i < j < edits.len() ==> (#[trigger] edits[i]).end <= (#[trigger] edits[j]).start
}

/// `s` with the range of `e` replaced.
pub open spec fn splice(s: Seq<char>, e: EditView) -> Seq<char> {
    s.take(e.start) + e.replacement + s.skip(e.end)
}

/// `s` after the edits, the last one applied first, so that the offsets of
/// the edits before it stay valid.
pub open spec fn apply_edits(s: Seq<char>, edits: Seq<EditView>) -> Seq<char>
    decreases edits.len(),
{
    if edits.len() == 0 {
        s
    } else {
        apply_edits(splice(s, edits.last()), edits.drop_last())
    }
}

pub open spec fn ends_with_two_feeds(s: Seq<char>) -> bool {
    s.len() >= 2 && s[s.len() - 1] == '\n' && s[s.len() - 2] == '\n'
}

/// `s` with every run of three or more line feeds cut down to two.
pub open spec fn collapse_newlines(s: Seq<char>) -> Seq<char>
    decreases s.len(),
{
    if s.len() == 0 {
        s
    } else {
        let before = collapse_newlines(s.drop_last());
        if s.last() == '\n' && ends_with_two_feeds(before) {
            before
        } else {
            before.push(s.last())
        }
    }
}

/// The last step of rewriting: long runs of line feeds are collapsed, and
/// the result is trimmed.
pub open spec fn finish(s: Seq<char>) -> Seq<char> {
    trim(collapse_newlines(s))
}

/// The rewritten chapter for a source text and the events of its parse.
pub open spec fn rewrite_spec(content: Seq<char>, events: Seq<MdEvent>) -> Seq<char> {
    finish(apply_edits(content, plan_edits(content, fences_of(events), 0)))
}

fn char_range_exec(content: &Vec<char>, from: usize, to: usize) -> (r: Option<(usize, usize)>)
    ensures
        match r {
            Some((a, b)) => char_range(content@, from as int, to as int) == Some(
                (a as int, b as int),
            ) && a <= b <= content.len(),
            None => char_range(content@, from as int, to as int) is None,
        },
{
    match char_index_exec(content, from) {
        Some(a) => match char_index_exec(content, to) {
            Some(b) => if a <= b {
                Some((a, b))
            } else {
                None
            },
            None => None,
        },
        None => None,
    }
}

pub open spec fn opt_edit_view(e: Option<Edit>) -> Option<EditView> {
    match e {
        Some(e) => Some(e@),
        None => None,
    }
}

fn published_body_exec(inner: &Vec<char>) -> (r: Vec<char>)
    ensures
        r@ == published_body(inner@),
{
    let mut body = trim_chars(&strip_markers_chars(inner));
    if body.len() > 0 {
        body.push('\n');
    }
    body
}

/// The edit that one fenced block calls for.
pub fn fence_edit_exec(content: &Vec<char>, f: &Fence) -> (r: Option<Edit>)
    ensures
        opt_edit_view(r) == fence_edit(content@, f@),
        r matches Some(e) ==> e.start <= e.end <= content.len(),
{
    let info = parse_fence_info(f.info.as_str());
    if info.validator.is_none() {
        return None;
    }
    if info.hidden {
        match char_range_exec(content, f.start, f.end) {
            Some((a, b)) => Some(
                Edit {
                    start: line_start_exec(content, a),
                    end: past_newline_exec(content, b),
                    replacement: Vec::new(),
                },
            ),
            None => None,
        }
    } else {
        match f.inner {
            Some((from, to)) => match char_range_exec(content, from, to) {
                Some((a, b)) => {
                    let inner = slice_of(content, a, b);
                    Some(Edit { start: a, end: b, replacement: published_body_exec(&inner) })
                },
                None => None,
            },
            None => None,
        }
    }
}

/// The edits that `plan_edits` lists lie inside the text, each before the
/// next, none before the cursor.
pub proof fn lemma_plan_ordered(content: Seq<char>, fences: Seq<FenceView>, cursor: int)
    requires
        0 <= cursor <= content.len(),
    ensures
        edits_ordered(plan_edits(content, fences, cursor), cursor, content.len() as int),
    decreases fences.len(),
{
    if fences.len() > 0 {
        lemma_fence_edit_bounds(content, fences[0]);
        match fence_edit(content, fences[0]) {
            Some(e) => {
                if cursor <= e.start {
                    lemma_plan_ordered(content, fences.drop_first(), e.end);
                    let rest = plan_edits(content, fences.drop_first(), e.end);
                    let all = seq![e] + rest;
                    assert forall|i: int| 0 <= i < all.len() implies cursor <= (
                    #[trigger] all[i]).start <= all[i].end <= content.len() by {
                        if i > 0 {
                            assert(all[i] == rest[i - 1]);
                        }
                    }
                    assert forall|i: int, j: int| 0 <= i < j < all.len() implies (
                    #[trigger] all[i]).end <= (#[trigger] all[j]).start by {
                        assert(all[j] == rest[j - 1]);
                        if i > 0 {
                            assert(all[i] == rest[i - 1]);
                        }
                    }
                } else {
                    lemma_plan_ordered(content, fences.drop_first(), cursor);
                }
            },
            None => {
                lemma_plan_ordered(content, fences.drop_first(), cursor);
            },
        }
    }
}

/// An edit that a fenced block calls for lies inside the text.
pub proof fn lemma_fence_edit_bounds(content: Seq<char>, f: FenceView)
    ensures
        fence_edit(content, f) matches Some(e) ==> 0 <= e.start <= e.end <= content.len(),
{
    if let Some(e) = fence_edit(content, f) {
        let info = parse_info_spec(f.info);
        if info.hidden {
            let (a, b) = char_range(content, f.start, f.end)->0;
            lemma_line_start_bounds(content, a);
        }
    }
}

/// Lists the edits of a chapter from its fenced blocks.
pub fn plan_edits_exec(content: &Vec<char>, fences: &Vec<Fence>) -> (r: Vec<Edit>)
    ensures
        edit_views(r@) == plan_edits(content@, fence_views(fences@), 0),
        edits_ordered(edit_views(r@), 0, content.len() as int),
{
    let mut out: Vec<Edit> = Vec::new();
    let mut cursor: usize = 0;
    let mut i: usize = 0;
    let ghost all = fence_views(fences@);
    proof {
        assert(all.skip(0) == all);
        assert(edit_views(out@) + plan_edits(content@, all, 0) == plan_edits(content@, all, 0));
    }
    while i < fences.len()
        invariant
            i <= fences.len(),
            cursor <= content.len(),
            all == fence_views(fences@),
            plan_edits(content@, all, 0) == edit_views(out@) + plan_edits(
                content@,
                all.skip(i as int),
                cursor as int,
            ),
        decreases fences.len() - i,
    {
        let ghost rest = all.skip(i as int);
        proof {
            assert(rest[0] == fences@[i as int]@);
            assert(rest.drop_first() == all.skip(i + 1));
        }
        match fence_edit_exec(content, &fences[i]) {
            Some(e) => {
                if cursor <= e.start {
                    proof {
                        assert(edit_views(out@.push(e)) == edit_views(out@) + seq![e@]);
                    }
                    cursor = e.end;
                    out.push(e);
                }
            },
            None => {},
        }
        i += 1;
    }
    proof {
        assert(edit_views(out@) + Seq::<EditView>::empty() == edit_views(out@));
        lemma_plan_ordered(content@, all, 0);
    }
    out
}

fn splice_exec(content: &Vec<char>, e: &Edit) -> (r: Vec<char>)
    requires
        e.start <= e.end <= content.len(),
    ensures
        r@ == splice(content@, e@),
{
    let mut r = slice_of(content, 0, e.start);
    push_all(&mut r, &e.replacement);
    let tail = slice_of(content, e.end, content.len());
    push_all(&mut r, &tail);
    r
}

/// Applies ordered edits to the source, from the last to the first.
pub(crate) fn apply_edits_exec(content: &Vec<char>, edits: &Vec<Edit>) -> (r: Vec<char>)
    requires
        edits_ordered(edit_views(edits@), 0, content.len() as int),
    ensures
        r@ == apply_edits(content@, edit_views(edits@)),
{
    let mut result = slice_of(content, 0, content.len());
    let mut i: usize = edits.len();
    let ghost all = edit_views(edits@);
    proof {
        assert(result@ == content@);
        assert(all.take(i as int) == all);
    }
    while i > 0
        invariant
            i <= edits.len(),
            all == edit_views(edits@),
            edits_ordered(all, 0, content.len() as int),
            apply_edits(content@, all) == apply_edits(result@, all.take(i as int)),
            // what lies before the edits still to come is as it was
            forall|k: int| 0 <= k < i ==> (#[trigger] all[k]).end <= result.len(),
            forall|k: int, p: int|
                0 <= k < i && 0 <= p < (#[trigger] all[k]).end ==> #[trigger] result@[p]
                    == content@[p],
        decreases i,
    {
        let e = &edits[i - 1];
        let ghost prefix = all.take(i as int);
        proof {
            assert(all[i - 1] == e@);
            assert(prefix.last() == e@);
            assert(prefix.drop_last() == all.take(i - 1));
        }
        let next = splice_exec(&result, e);
        proof {
            assert forall|k: int| 0 <= k < i - 1 implies (#[trigger] all[k]).end <= next.len() by {
                assert(all[k].end <= all[i - 1].start);
            }
            assert forall|k: int, p: int|
                0 <= k < i - 1 && 0 <= p < (#[trigger] all[k]).end implies #[trigger] next@[p]
                == content@[p] by {
                assert(all[k].end <= all[i - 1].start);
                assert(next@[p] == result@[p]);
            }
        }
        result = next;
        i -= 1;
    }
    proof {
        assert(all.take(0) =~= Seq::<EditView>::empty());
    }
    result
}

/// Cuts every run of three or more line feeds down to two.
pub fn collapse_newlines_exec(content: &Vec<char>) -> (r: Vec<char>)
    ensures
        r@ == collapse_newlines(content@),
{
    let mut out: Vec<char> = Vec::new();
    let mut i: usize = 0;
    assert(content@.take(0) =~= Seq::<char>::empty());
    while i < content.len()
        invariant
            i <= content.len(),
            out@ == collapse_newlines(content@.take(i as int)),
        decreases content.len() - i,
    {
        let c = content[i];
        proof {
            let next = content@.take(i + 1);
            assert(next.drop_last() == content@.take(i as int));
            assert(next.last() == c);
        }
        let n = out.len();
        if c == '\n' && n >= 2 && out[n - 1] == '\n' && out[n - 2] == '\n' {
        } else {
            out.push(c);
        }
        i += 1;
    }
    assert(content@.take(content.len() as int) == content@);
    out
}

/// Rewrites a chapter, given the events of its parse: hidden validator
/// blocks disappear, the other validator blocks keep only their published
/// body, and all else stays, up to the collapsing of long runs of line feeds
/// and the trimming of the whole.
pub fn rewrite_chapter(content: &str, events: &Vec<MdEvent>) -> (r: String)
    ensures
        r@ == rewrite_spec(content@, events@),
{
    let chars = chars_of(content);
    let fences = collect_fences(events);
    let edits = plan_edits_exec(&chars, &fences);
    let edited = apply_edits_exec(&chars, &edits);
    let collapsed = collapse_newlines_exec(&edited);
    string_of(&trim_chars(&collapsed))
}

} // verus!
