//! Removal of validation markers from the text that is published.

use vstd::prelude::*;
use crate::lines::{join, join_exec, lines, lines_exec, views};
use crate::text::{
    chars_of, find_from, find_from_exec, lemma_find_from, matches_at, matches_at_exec, push_all,
    slice_of, starts_with, string_of,
};

verus! {

/// The text that closes a marker region.
pub open spec fn closer() -> Seq<char> {
    "-->"@
}

/// The prefix of a line that is validated but not published.
pub open spec fn at_prefix() -> Seq<char> {
    "@@"@
}

pub open spec fn line_feed() -> Seq<char> {
    seq!['\n']
}

/// Where a cut that begins at `start` really begins: one line feed directly
/// before it goes too.
pub open spec fn cut_start(s: Seq<char>, start: int) -> int {
    if 0 < start <= s.len() && s[start - 1] == '\n' {
        start - 1
    } else {
        start
    }
}

/// Where a cut that ends at `end` really ends: one line feed directly after
/// it goes too.
pub open spec fn cut_end(s: Seq<char>, end: int) -> int {
    if 0 <= end < s.len() && s[end] == '\n' {
        end + 1
    } else {
        end
    }
}

/// Position `i` of `s` begins a line: it is the start of the text or stands
/// directly behind a line feed.
pub open spec fn at_line_start(s: Seq<char>, i: int) -> bool {
    i == 0 || (0 < i <= s.len() && s[i - 1] == '\n')
}

/// `marker` opens a region at `i`: it stands there, at the beginning of a
/// line.
pub open spec fn opens_at(s: Seq<char>, marker: Seq<char>, i: int) -> bool {
    matches_at(s, marker, i) && at_line_start(s, i)
}

/// The first place at or behind `from` where `marker` opens a region.
pub open spec fn find_opener(s: Seq<char>, marker: Seq<char>, from: int) -> Option<int>
    decreases s.len() + 1 - from,
{
    if from < 0 || from + marker.len() > s.len() {
        None
    } else if opens_at(s, marker, from) {
        Some(from)
    } else {
        find_opener(s, marker, from + 1)
    }
}

/// A marker region of a text.
pub struct Region {
    /// Where the marker stands.
    pub start: int,
    /// Where the inner text begins: behind the first line feed after the
    /// marker.
    pub inner_start: int,
    /// Where the closer stands: the first one in or behind the inner text.
    pub close: int,
    /// Where the cut begins that takes the region out.
    pub cut_from: int,
    /// Where that cut ends.
    pub cut_to: int,
}

/// The first region of `s` that `marker` opens. The marker stands at the
/// beginning of a line, the inner text begins behind the line feed that ends
/// that line, and the region ends with the first closer from there on. The
/// region is cut out together with one line feed: the one directly behind
/// it, or else the one directly before it, so that the lines around it stay
/// lines. `None` where no marker begins a line, or no line feed or no closer
/// follows the first that does.
pub open spec fn first_region(s: Seq<char>, marker: Seq<char>) -> Option<Region> {
    match find_opener(s, marker, 0) {
        None => None,
        Some(start) => match find_from(s, line_feed(), start) {
            None => None,
            Some(feed) => match find_from(s, closer(), feed + 1) {
                None => None,
                Some(close) => {
                    let end = close + closer().len();
                    Some(
                        Region {
                            start,
                            inner_start: feed + 1,
                            close,
                            cut_from: if cut_end(s, end) == end {
                                cut_start(s, start)
                            } else {
                                start
                            },
                            cut_to: cut_end(s, end),
                        },
                    )
                },
            },
        },
    }
}

/// `s` without its first region.
pub open spec fn without_region(s: Seq<char>, region: Region) -> Seq<char> {
    s.take(region.cut_from) + s.skip(region.cut_to)
}

/// `s` without every region that `marker` opens: the first region is taken
/// out, then the first of what is left, until none is left.
pub open spec fn strip_marker_block_spec(s: Seq<char>, marker: Seq<char>) -> Seq<char>
    decreases s.len(),
{
    match first_region(s, marker) {
        None => s,
        Some(region) => if 0 <= region.cut_from < region.cut_to <= s.len() {
            strip_marker_block_spec(without_region(s, region), marker)
        } else {
            s
        },
    }
}

/// A line that is published: one that does not begin with the hidden-line
/// prefix.
pub open spec fn is_published_line(line: Seq<char>) -> bool {
    !starts_with(line, at_prefix())
}

/// The lines of `s` that are published, joined by line feeds.
pub open spec fn strip_double_at_lines_spec(s: Seq<char>) -> Seq<char> {
    join(lines(s).filter(|l: Seq<char>| is_published_line(l)), line_feed())
}

/// `s` without its setup, assertion and expectation regions and without its
/// hidden lines.
pub open spec fn strip_markers_spec(s: Seq<char>) -> Seq<char> {
    strip_double_at_lines_spec(
        strip_marker_block_spec(
            strip_marker_block_spec(strip_marker_block_spec(s, "<!--SETUP"@), "<!--ASSERT"@),
            "<!--EXPECT"@,
        ),
    )
}

pub proof fn lemma_find_opener(s: Seq<char>, marker: Seq<char>, from: int)
    requires
        0 <= from,
    ensures
        match find_opener(s, marker, from) {
            Some(i) => {
                &&& from <= i
                &&& opens_at(s, marker, i)
                &&& forall|k: int| from <= k < i ==> !opens_at(s, marker, k)
            },
            None => forall|k: int| from <= k ==> !opens_at(s, marker, k),
        },
    decreases s.len() + 1 - from,
{
    if from + marker.len() > s.len() {
    } else if opens_at(s, marker, from) {
    } else {
        lemma_find_opener(s, marker, from + 1);
    }
}

/// A region lies inside the text in this order: the marker, the inner
/// text, the closer; and its cut is not empty.
pub proof fn lemma_region_bounds(s: Seq<char>, marker: Seq<char>)
    ensures
        first_region(s, marker) matches Some(r) ==> {
            &&& 0 <= r.cut_from <= r.start < r.inner_start <= r.close
            &&& r.close + closer().len() <= r.cut_to <= s.len()
            &&& r.start - 1 <= r.cut_from
            &&& r.cut_to <= r.close + closer().len() + 1
            &&& r.cut_from < r.cut_to
        },
{
    reveal_strlit("-->");
    lemma_find_opener(s, marker, 0);
    if let Some(start) = find_opener(s, marker, 0) {
        lemma_find_from(s, line_feed(), start);
        if let Some(feed) = find_from(s, line_feed(), start) {
            lemma_find_from(s, closer(), feed + 1);
        }
    }
}

/// A region as positions in a vector.
pub struct RegionAt {
    pub start: usize,
    pub inner_start: usize,
    pub close: usize,
    pub cut_from: usize,
    pub cut_to: usize,
}

impl View for RegionAt {
    type V = Region;

    open spec fn view(&self) -> Region {
        Region {
            start: self.start as int,
            inner_start: self.inner_start as int,
            close: self.close as int,
            cut_from: self.cut_from as int,
            cut_to: self.cut_to as int,
        }
    }
}

fn find_opener_exec(v: &Vec<char>, marker: &Vec<char>) -> (r: Option<usize>)
    ensures
        match r {
            Some(i) => find_opener(v@, marker@, 0) == Some(i as int) && i + marker.len()
                <= v.len(),
            None => find_opener(v@, marker@, 0) is None,
        },
{
    let mut i: usize = 0;
    while i <= v.len()
        invariant
            find_opener(v@, marker@, 0) == find_opener(v@, marker@, i as int),
        ensures
            find_opener(v@, marker@, 0) is None,
        decreases v.len() + 1 - i,
    {
        if (i == 0 || v[i - 1] == '\n') && matches_at_exec(v, marker, i) {
            return Some(i);
        }
        if i == v.len() {
            assert(find_opener(v@, marker@, i + 1) is None);
            break;
        }
        i += 1;
    }
    None
}

/// The first region of `v` that `marker` opens.
pub fn first_region_exec(v: &Vec<char>, marker: &Vec<char>) -> (r: Option<RegionAt>)
    ensures
        match r {
            Some(region) => first_region(v@, marker@) == Some(region@) && region.cut_from
                < region.cut_to <= v.len() && region.inner_start <= region.close <= v.len(),
            None => first_region(v@, marker@) is None,
        },
{
    let close_pat = chars_of("-->");
    let feed_pat: Vec<char> = vec!['\n'];
    proof {
        reveal_strlit("-->");
        assert(feed_pat@ == line_feed());
        lemma_region_bounds(v@, marker@);
    }
    let start = match find_opener_exec(v, marker) {
        Some(start) => start,
        None => {
            return None;
        },
    };
    let feed = match find_from_exec(v, &feed_pat, start) {
        Some(feed) => feed,
        None => {
            return None;
        },
    };
    let close = match find_from_exec(v, &close_pat, feed + 1) {
        Some(close) => close,
        None => {
            return None;
        },
    };
    let end = close + 3;
    let cut_to = if end < v.len() && v[end] == '\n' {
        end + 1
    } else {
        end
    };
    let cut_from = if cut_to == end && start > 0 && v[start - 1] == '\n' {
        start - 1
    } else {
        start
    };
    Some(RegionAt { start, inner_start: feed + 1, close, cut_from, cut_to })
}

/// `v` without the characters from `a` up to `b`.
pub(crate) fn without_range(v: &Vec<char>, a: usize, b: usize) -> (r: Vec<char>)
    requires
        a <= b <= v.len(),
    ensures
        r@ == v@.take(a as int) + v@.skip(b as int),
{
    let mut r = slice_of(v, 0, a);
    let tail = slice_of(v, b, v.len());
    push_all(&mut r, &tail);
    r
}

pub fn strip_marker_block_chars(content: &Vec<char>, marker: &Vec<char>) -> (r: Vec<char>)
    ensures
        r@ == strip_marker_block_spec(content@, marker@),
{
    let mut result = slice_of(content, 0, content.len());
    assert(result@ == content@);
    loop
        invariant
            strip_marker_block_spec(content@, marker@) == strip_marker_block_spec(
                result@,
                marker@,
            ),
        ensures
            result@ == strip_marker_block_spec(content@, marker@),
        decreases result.len(),
    {
        match first_region_exec(&result, marker) {
            None => {
                break;
            },
            Some(region) => {
                result = without_range(&result, region.cut_from, region.cut_to);
            },
        }
    }
    result
}

/// Removes every region that `marker` opens, each with one line feed: the
/// one directly behind it, or else the one directly before it. A marker that
/// no closer follows stays, with all that comes after it.
pub fn strip_marker_block(content: &str, marker: &str) -> (r: String)
    ensures
        r@ == strip_marker_block_spec(content@, marker@),
{
    let c = chars_of(content);
    let m = chars_of(marker);
    string_of(&strip_marker_block_chars(&c, &m))
}

pub fn strip_double_at_lines_chars(content: &Vec<char>) -> (r: Vec<char>)
    ensures
        r@ == strip_double_at_lines_spec(content@),
{
    let all = lines_exec(content);
    let prefix = chars_of("@@");
    let mut kept: Vec<Vec<char>> = Vec::new();
    let ghost keep = |l: Seq<char>| is_published_line(l);
    let mut i: usize = 0;
    proof {
        reveal(Seq::filter);
        assert(views(kept@) == views(all@).take(0).filter(keep));
    }
    while i < all.len()
        invariant
            i <= all.len(),
            prefix@ == at_prefix(),
            keep == (|l: Seq<char>| is_published_line(l)),
            views(kept@) == views(all@).take(i as int).filter(keep),
        decreases all.len() - i,
    {
        proof {
            reveal(Seq::filter);
            let next = views(all@).take(i + 1);
            assert(next.drop_last() == views(all@).take(i as int));
            assert(next.last() == all@[i as int]@);
        }
        if !matches_at_exec(&all[i], &prefix, 0) {
            let line = slice_of(&all[i], 0, all[i].len());
            proof {
                assert(line@ == all@[i as int]@);
                assert(views(kept@.push(line)) == views(kept@).push(line@));
            }
            kept.push(line);
        }
        i += 1;
    }
    assert(views(all@).take(all.len() as int) == views(all@));
    let sep: Vec<char> = vec!['\n'];
    assert(sep@ == line_feed());
    join_exec(&kept, &sep)
}

/// Drops every line that begins with `@@` and joins the others with line
/// feeds.
pub fn strip_double_at_lines(content: &str) -> (r: String)
    ensures
        r@ == strip_double_at_lines_spec(content@),
{
    string_of(&strip_double_at_lines_chars(&chars_of(content)))
}

pub fn strip_markers_chars(content: &Vec<char>) -> (r: Vec<char>)
    ensures
        r@ == strip_markers_spec(content@),
{
    let a = strip_marker_block_chars(content, &chars_of("<!--SETUP"));
    let b = strip_marker_block_chars(&a, &chars_of("<!--ASSERT"));
    let c = strip_marker_block_chars(&b, &chars_of("<!--EXPECT"));
    strip_double_at_lines_chars(&c)
}

/// Strips the setup, assertion and expectation regions and the lines that
/// begin with `@@` from the body of a code block.
pub fn strip_markers(content: &str) -> (r: String)
    ensures
        r@ == strip_markers_spec(content@),
{
    string_of(&strip_markers_chars(&chars_of(content)))
}

} // verus!
