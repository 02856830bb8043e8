//! What the chapter rewriter keeps and what it removes.

use vstd::prelude::*;
use crate::fence::{fences_of, FenceView};
use crate::markdown::MdEvent;
use crate::parser::parse_info_spec;
use crate::rewrite::{
    apply_edits, char_range, collapse_newlines, edits_ordered, ends_with_two_feeds, fence_edit,
    finish, lemma_line_start_bounds, line_start, past_newline, plan_edits, rewrite_spec, splice,
    EditView,
};
use crate::text::{
    contains, lemma_contains_middle, lemma_contains_trans, lemma_leading_spaces,
    lemma_trailing_spaces, lemma_trim_idempotent, matches_at, trim, trim_start,
};

verus! {

/// The text between `from` and `to` with the edits carried out: what stands
/// before the first edit, its replacement, and so on, up to what stands
/// behind the last edit.
pub open spec fn pieces(s: Seq<char>, edits: Seq<EditView>, from: int, to: int) -> Seq<char>
    decreases edits.len(),
{
    if edits.len() == 0 {
        s.subrange(from, to)
    } else {
        s.subrange(from, edits[0].start) + edits[0].replacement + pieces(
            s,
            edits.drop_first(),
            edits[0].end,
            to,
        )
    }
}

proof fn lemma_ordered_rest(edits: Seq<EditView>, lo: int, hi: int)
    requires
        edits.len() > 0,
        edits_ordered(edits, lo, hi),
    ensures
        edits_ordered(edits.drop_first(), edits[0].end, hi),
        lo <= edits[0].start <= edits[0].end <= hi,
{
    let rest = edits.drop_first();
    assert forall|i: int| 0 <= i < rest.len() implies edits[0].end <= (#[trigger] rest[i]).start
        <= rest[i].end <= hi by {
        assert(rest[i] == edits[i + 1]);
    }
    assert forall|i: int, j: int| 0 <= i < j < rest.len() implies (#[trigger] rest[i]).end <= (
    #[trigger] rest[j]).start by {
        assert(rest[i] == edits[i + 1]);
        assert(rest[j] == edits[j + 1]);
    }
}

/// What lies behind the last edit can be added afterwards.
proof fn lemma_pieces_extend(s: Seq<char>, edits: Seq<EditView>, from: int, mid: int, to: int)
    requires
        0 <= from,
        edits_ordered(edits, from, mid),
        from <= mid <= to <= s.len(),
    ensures
        pieces(s, edits, from, to) == pieces(s, edits, from, mid) + s.subrange(mid, to),
    decreases edits.len(),
{
    if edits.len() == 0 {
        assert(s.subrange(from, to) =~= s.subrange(from, mid) + s.subrange(mid, to));
    } else {
        lemma_ordered_rest(edits, from, mid);
        lemma_pieces_extend(s, edits.drop_first(), edits[0].end, mid, to);
        let head = s.subrange(from, edits[0].start) + edits[0].replacement;
        let rest = pieces(s, edits.drop_first(), edits[0].end, mid);
        assert(head + (rest + s.subrange(mid, to)) =~= head + rest + s.subrange(mid, to));
    }
}

/// Only the text before `to` matters.
proof fn lemma_pieces_local(s: Seq<char>, other: Seq<char>, edits: Seq<EditView>, from: int, to: int)
    requires
        0 <= from,
        edits_ordered(edits, from, to),
        from <= to <= s.len(),
        to <= other.len(),
        other.take(to) == s.take(to),
    ensures
        pieces(other, edits, from, to) == pieces(s, edits, from, to),
    decreases edits.len(),
{
    assert forall|a: int, b: int| 0 <= a <= b <= to implies other.subrange(a, b) == s.subrange(
        a,
        b,
    ) by {
        assert(other.subrange(a, b) =~= other.take(to).subrange(a, b));
        assert(s.subrange(a, b) =~= s.take(to).subrange(a, b));
    }
    if edits.len() > 0 {
        lemma_ordered_rest(edits, from, to);
        lemma_pieces_local(s, other, edits.drop_first(), edits[0].end, to);
    }
}

/// One more edit behind the others.
proof fn lemma_pieces_push(
    s: Seq<char>,
    edits: Seq<EditView>,
    last: EditView,
    from: int,
    to: int,
)
    requires
        0 <= from,
        edits_ordered(edits.push(last), from, to),
        to <= s.len(),
    ensures
        pieces(s, edits.push(last), from, to) == pieces(s, edits, from, last.start)
            + last.replacement + s.subrange(last.end, to),
    decreases edits.len(),
{
    let all = edits.push(last);
    assert(all[all.len() - 1] == last);
    assert(from <= last.start <= last.end <= to);
    if edits.len() == 0 {
        assert(all.drop_first() =~= Seq::<EditView>::empty());
        assert(all[0] == last);
        assert(pieces(s, all.drop_first(), last.end, to) == s.subrange(last.end, to));
        assert(pieces(s, edits, from, last.start) == s.subrange(from, last.start));
    } else {
        lemma_ordered_rest(all, from, to);
        assert(all.drop_first() =~= edits.drop_first().push(last));
        assert(all[0] == edits[0]);
        assert(0 <= edits[0].end);
        lemma_pieces_push(s, edits.drop_first(), last, edits[0].end, to);
        assert(edits[0].end <= last.start) by {
            assert(all[0].end <= all[all.len() - 1].start);
        }
        let head = s.subrange(from, edits[0].start) + edits[0].replacement;
        let rest = pieces(s, edits.drop_first(), edits[0].end, last.start);
        assert(head + (rest + last.replacement + s.subrange(last.end, to)) =~= head + rest
            + last.replacement + s.subrange(last.end, to));
    }
}

/// Applying ordered edits from the last to the first gives the source with
/// each edited range replaced and every other character where it was.
pub proof fn lemma_apply_is_pieces(s: Seq<char>, edits: Seq<EditView>)
    requires
        edits_ordered(edits, 0, s.len() as int),
    ensures
        apply_edits(s, edits) == pieces(s, edits, 0, s.len() as int),
    decreases edits.len(),
{
    if edits.len() > 0 {
        let last = edits.last();
        let before = edits.drop_last();
        let spliced = splice(s, last);
        assert(edits =~= before.push(last));
        assert forall|i: int| 0 <= i < before.len() implies 0 <= (#[trigger] before[i]).start
            <= before[i].end <= last.start by {
            assert(before[i] == edits[i]);
            assert(edits[i].end <= edits[edits.len() - 1].start);
        }
        assert forall|i: int, j: int| 0 <= i < j < before.len() implies (
        #[trigger] before[i]).end <= (#[trigger] before[j]).start by {
            assert(before[i] == edits[i]);
            assert(before[j] == edits[j]);
        }
        assert(edits_ordered(before, 0, last.start));
        assert(last.start <= spliced.len());
        assert(edits_ordered(before, 0, spliced.len() as int));
        lemma_apply_is_pieces(spliced, before);
        lemma_pieces_extend(spliced, before, 0, last.start, spliced.len() as int);
        assert(spliced.take(last.start) =~= s.take(last.start));
        lemma_pieces_local(s, spliced, before, 0, last.start);
        assert(spliced.subrange(last.start, spliced.len() as int) =~= last.replacement + s.skip(
            last.end,
        ));
        lemma_pieces_push(s, before, last, 0, s.len() as int);
        assert(s.subrange(last.end, s.len() as int) =~= s.skip(last.end));
        let kept = pieces(s, before, 0, last.start);
        assert(kept + (last.replacement + s.skip(last.end)) =~= kept + last.replacement + s.skip(
            last.end,
        ));
    } else {
        assert(s.subrange(0, s.len() as int) =~= s);
    }
}

proof fn lemma_subrange_contains(s: Seq<char>, from: int, x: int, y: int, to: int)
    requires
        0 <= from <= x <= y <= to <= s.len(),
    ensures
        contains(s.subrange(from, to), s.subrange(x, y)),
{
    assert(s.subrange(from, to) =~= s.subrange(from, x) + s.subrange(x, y) + s.subrange(y, to));
    lemma_contains_middle(s.subrange(from, x), s.subrange(x, y), s.subrange(y, to));
}

proof fn lemma_pieces_keep(
    s: Seq<char>,
    edits: Seq<EditView>,
    from: int,
    to: int,
    x: int,
    y: int,
)
    requires
        0 <= from <= x <= y <= to <= s.len(),
        edits_ordered(edits, from, to),
        forall|i: int| 0 <= i < edits.len() ==> y <= (#[trigger] edits[i]).start || edits[i].end <= x,
    ensures
        contains(pieces(s, edits, from, to), s.subrange(x, y)),
    decreases edits.len(),
{
    let wanted = s.subrange(x, y);
    if edits.len() == 0 {
        lemma_subrange_contains(s, from, x, y, to);
    } else {
        lemma_ordered_rest(edits, from, to);
        let first = edits[0];
        let rest = pieces(s, edits.drop_first(), first.end, to);
        let whole = pieces(s, edits, from, to);
        let empty = Seq::<char>::empty();
        if y <= first.start {
            lemma_subrange_contains(s, from, x, y, first.start);
            assert(whole =~= empty + s.subrange(from, first.start) + (first.replacement + rest));
            lemma_contains_middle(empty, s.subrange(from, first.start), first.replacement + rest);
            lemma_contains_trans(whole, s.subrange(from, first.start), wanted);
        } else {
            assert forall|i: int| 0 <= i < edits.drop_first().len() implies y <= (
            #[trigger] edits.drop_first()[i]).start || edits.drop_first()[i].end <= x by {
                assert(edits.drop_first()[i] == edits[i + 1]);
            }
            lemma_pieces_keep(s, edits.drop_first(), first.end, to, x, y);
            assert(whole =~= (s.subrange(from, first.start) + first.replacement) + rest + empty);
            lemma_contains_middle(
                s.subrange(from, first.start) + first.replacement,
                rest,
                empty,
            );
            lemma_contains_trans(whole, rest, wanted);
        }
    }
}

/// Every edit of a chapter comes from a fenced block that names a validator.
pub proof fn lemma_edits_come_from_validator_blocks(
    content: Seq<char>,
    fences: Seq<FenceView>,
    cursor: int,
    i: int,
)
    requires
        0 <= i < plan_edits(content, fences, cursor).len(),
    ensures
        exists|k: int|
            0 <= k < fences.len() && parse_info_spec((#[trigger] fences[k]).info).validator is Some
                && fence_edit(content, fences[k]) == Some(plan_edits(content, fences, cursor)[i]),
    decreases fences.len(),
{
    let rest = fences.drop_first();
    match fence_edit(content, fences[0]) {
        Some(e) => {
            if cursor <= e.start {
                if i == 0 {
                    assert(fence_edit(content, fences[0]) == Some(
                        plan_edits(content, fences, cursor)[0],
                    ));
                } else {
                    lemma_edits_come_from_validator_blocks(content, rest, e.end, i - 1);
                    let k = choose|k: int|
                        0 <= k < rest.len() && parse_info_spec(
                            (#[trigger] rest[k]).info,
                        ).validator is Some && fence_edit(content, rest[k]) == Some(
                            plan_edits(content, rest, e.end)[i - 1],
                        );
                    assert(fences[k + 1] == rest[k]);
                }
            } else {
                lemma_edits_come_from_validator_blocks(content, rest, cursor, i);
                let k = choose|k: int|
                    0 <= k < rest.len() && parse_info_spec((#[trigger] rest[k]).info).validator
                        is Some && fence_edit(content, rest[k]) == Some(
                        plan_edits(content, rest, cursor)[i],
                    );
                assert(fences[k + 1] == rest[k]);
            }
        },
        None => {
            lemma_edits_come_from_validator_blocks(content, rest, cursor, i);
            let k = choose|k: int|
                0 <= k < rest.len() && parse_info_spec((#[trigger] rest[k]).info).validator is Some
                    && fence_edit(content, rest[k]) == Some(plan_edits(content, rest, cursor)[i]);
            assert(fences[k + 1] == rest[k]);
        },
    }
}

/// Whatever part of a chapter meets no edit stands in the edited text as it
/// was: the text outside validator blocks, and the fenced blocks that name
/// no validator, reach the last step of rewriting unchanged. That step only
/// collapses long runs of line feeds and trims the whole.
pub proof fn lemma_rewrite_keeps_what_no_edit_meets(
    content: Seq<char>,
    events: Seq<MdEvent>,
    x: int,
    y: int,
)
    requires
        0 <= x <= y <= content.len(),
        forall|i: int|
            0 <= i < plan_edits(content, fences_of(events), 0).len() ==> y <= (#[trigger] plan_edits(
                content,
                fences_of(events),
                0,
            )[i]).start || plan_edits(content, fences_of(events), 0)[i].end <= x,
    ensures
        contains(
            apply_edits(content, plan_edits(content, fences_of(events), 0)),
            content.subrange(x, y),
        ),
        rewrite_spec(content, events) == finish(
            apply_edits(content, plan_edits(content, fences_of(events), 0)),
        ),
{
    let edits = plan_edits(content, fences_of(events), 0);
    crate::rewrite::lemma_plan_ordered(content, fences_of(events), 0);
    lemma_apply_is_pieces(content, edits);
    lemma_pieces_keep(content, edits, 0, content.len() as int, x, y);
}

/// The edit of a hidden validator block covers the block from its opening
/// fence through its closing fence and puts nothing in its place.
pub proof fn lemma_hidden_block_is_deleted(content: Seq<char>, f: FenceView)
    requires
        parse_info_spec(f.info).validator is Some,
        parse_info_spec(f.info).hidden,
        char_range(content, f.start, f.end) is Some,
    ensures
        ({
            let (a, b) = char_range(content, f.start, f.end)->0;
            &&& fence_edit(content, f) matches Some(e)
            &&& e.start == line_start(content, a)
            &&& e.end == past_newline(content, b)
            &&& e.start <= a <= b <= e.end
            &&& e.replacement.len() == 0
        }),
{
    let (a, b) = char_range(content, f.start, f.end)->0;
    assert(0 <= a) by {
        let i = choose|i: int| crate::rewrite::is_char_offset(content, f.start, i);
    }
    lemma_line_start_bounds(content, a);
}

/// Where an edit puts nothing in place of its range, the edited text is made
/// of what the edits before it leave of the text before the range and what
/// the edits behind it leave of the text behind the range: nothing of the
/// range itself is left.
pub proof fn lemma_deleted_range_is_gone(s: Seq<char>, edits: Seq<EditView>, i: int)
    requires
        edits_ordered(edits, 0, s.len() as int),
        0 <= i < edits.len(),
        edits[i].replacement.len() == 0,
    ensures
        apply_edits(s, edits) == pieces(s, edits.take(i), 0, edits[i].start) + pieces(
            s,
            edits.skip(i + 1),
            edits[i].end,
            s.len() as int,
        ),
{
    lemma_apply_is_pieces(s, edits);
    lemma_pieces_split(s, edits, 0, s.len() as int, i);
    let before = pieces(s, edits.take(i), 0, edits[i].start);
    let after = pieces(s, edits.skip(i + 1), edits[i].end, s.len() as int);
    assert(before + edits[i].replacement + after =~= before + after);
}

proof fn lemma_pieces_split(s: Seq<char>, edits: Seq<EditView>, from: int, to: int, i: int)
    requires
        0 <= from,
        to <= s.len(),
        edits_ordered(edits, from, to),
        0 <= i < edits.len(),
    ensures
        pieces(s, edits, from, to) == pieces(s, edits.take(i), from, edits[i].start)
            + edits[i].replacement + pieces(s, edits.skip(i + 1), edits[i].end, to),
    decreases i,
{
    if i == 0 {
        assert(edits.take(0) =~= Seq::<EditView>::empty());
        assert(edits.skip(1) =~= edits.drop_first());
    } else {
        lemma_ordered_rest(edits, from, to);
        let rest = edits.drop_first();
        lemma_pieces_split(s, rest, edits[0].end, to, i - 1);
        assert(rest[i - 1] == edits[i]);
        assert(rest.take(i - 1) =~= edits.take(i).drop_first());
        assert(rest.skip(i) =~= edits.skip(i + 1));
        assert(edits.take(i)[0] == edits[0]);
        let head = s.subrange(from, edits[0].start) + edits[0].replacement;
        let mid = pieces(s, rest.take(i - 1), edits[0].end, edits[i].start);
        let tail = pieces(s, edits.skip(i + 1), edits[i].end, to);
        assert(head + (mid + edits[i].replacement + tail) =~= (head + mid) + edits[i].replacement
            + tail);
    }
}

/// No three line feeds in a row.
pub open spec fn no_long_run(s: Seq<char>) -> bool {
    forall|i: int|
        0 <= i && i + 2 < s.len() ==> !(#[trigger] s[i] == '\n' && s[i + 1] == '\n' && s[i + 2]
            == '\n')
}

/// Collapsing leaves no run of three line feeds.
pub proof fn lemma_collapse_leaves_no_long_run(s: Seq<char>)
    ensures
        no_long_run(collapse_newlines(s)),
    decreases s.len(),
{
    if s.len() > 0 {
        lemma_collapse_leaves_no_long_run(s.drop_last());
        let before = collapse_newlines(s.drop_last());
        let after = collapse_newlines(s);
        if !(s.last() == '\n' && ends_with_two_feeds(before)) {
            assert forall|i: int| 0 <= i && i + 2 < after.len() implies !(#[trigger] after[i]
                == '\n' && after[i + 1] == '\n' && after[i + 2] == '\n') by {
                if i + 2 < before.len() {
                    assert(after[i] == before[i]);
                    assert(after[i + 1] == before[i + 1]);
                    assert(after[i + 2] == before[i + 2]);
                } else {
                    assert(after[i] == before[i]);
                    assert(after[i + 1] == before[i + 1]);
                }
            }
        }
    }
}

/// A text without a run of three line feeds is as collapsing leaves it.
pub proof fn lemma_collapse_fixed(s: Seq<char>)
    requires
        no_long_run(s),
    ensures
        collapse_newlines(s) == s,
    decreases s.len(),
{
    if s.len() > 0 {
        let init = s.drop_last();
        assert forall|i: int| 0 <= i && i + 2 < init.len() implies !(#[trigger] init[i] == '\n'
            && init[i + 1] == '\n' && init[i + 2] == '\n') by {
            assert(init[i] == s[i]);
            assert(init[i + 1] == s[i + 1]);
            assert(init[i + 2] == s[i + 2]);
        }
        lemma_collapse_fixed(init);
        if s.last() == '\n' && ends_with_two_feeds(init) {
            let i = s.len() - 3;
            assert(s[i] == init[i]);
            assert(s[i + 1] == init[i + 1]);
            assert(s[i] == '\n' && s[i + 1] == '\n' && s[i + 2] == '\n');
        }
        assert(init.push(s.last()) =~= s);
    }
}

/// `t` ends with `c`.
pub open spec fn ends_with(t: Seq<char>, c: Seq<char>) -> bool {
    c.len() <= t.len() && t.subrange(t.len() - c.len(), t.len() as int) == c
}

/// `t` begins with `c`.
pub open spec fn begins_with(t: Seq<char>, c: Seq<char>) -> bool {
    c.len() <= t.len() && t.subrange(0, c.len() as int) == c
}

/// What a text collapses to is the end of what it collapses to behind any
/// other text.
pub proof fn lemma_collapse_suffix(before: Seq<char>, s: Seq<char>)
    ensures
        ends_with(collapse_newlines(before + s), collapse_newlines(s)),
    decreases s.len(),
{
    let whole = collapse_newlines(before + s);
    if s.len() == 0 {
        assert(whole.subrange(whole.len() as int, whole.len() as int) =~= collapse_newlines(s));
    } else {
        let init = s.drop_last();
        let c = s.last();
        lemma_collapse_suffix(before, init);
        assert((before + s).drop_last() =~= before + init);
        assert((before + s).last() == c);
        let t = collapse_newlines(before + init);
        let u = collapse_newlines(init);
        let n = t.len() as int;
        let m = u.len() as int;
        assert(t.subrange(n - m, n) == u);
        assert forall|k: int| 0 <= k < m implies u[k] == t[n - m + k] by {
            assert(t.subrange(n - m, n)[k] == t[n - m + k]);
        }
        if c == '\n' && ends_with_two_feeds(t) {
            if ends_with_two_feeds(u) {
            } else {
                assert(m < 2) by {
                    if m >= 2 {
                        assert(u[m - 1] == t[n - 1]);
                        assert(u[m - 2] == t[n - 2]);
                    }
                }
                let v = u.push('\n');
                assert(t.subrange(n - (m + 1), n) =~= v) by {
                    if m == 1 {
                        assert(u[0] == t[n - 1]);
                    }
                }
            }
        } else {
            if c == '\n' && ends_with_two_feeds(u) {
                assert(u[m - 1] == t[n - 1]);
                assert(u[m - 2] == t[n - 2]);
            }
            let longer = t.push(c);
            assert(longer.subrange(n + 1 - (m + 1), n + 1) =~= u.push(c));
        }
    }
}

/// What a text collapses to is the beginning of what it collapses to before
/// any other text.
pub proof fn lemma_collapse_prefix(s: Seq<char>, after: Seq<char>)
    ensures
        begins_with(collapse_newlines(s + after), collapse_newlines(s)),
    decreases after.len(),
{
    let first = collapse_newlines(s);
    if after.len() == 0 {
        assert(s + after =~= s);
        assert(first.subrange(0, first.len() as int) =~= first);
    } else {
        let init = after.drop_last();
        lemma_collapse_prefix(s, init);
        assert((s + after).drop_last() =~= s + init);
        let t = collapse_newlines(s + init);
        let longer = collapse_newlines(s + after);
        assert(longer.subrange(0, first.len() as int) =~= t.subrange(0, first.len() as int));
    }
}

/// Where a text stands in another, what it collapses to stands in what the
/// other collapses to.
pub proof fn lemma_collapse_contains(whole: Seq<char>, part: Seq<char>)
    requires
        contains(whole, part),
    ensures
        contains(collapse_newlines(whole), collapse_newlines(part)),
{
    let i = choose|i: int| matches_at(whole, part, i);
    let before = whole.take(i);
    let after = whole.skip(i + part.len());
    assert(whole.subrange(i, i + part.len()) == part);
    assert(whole =~= before + part + after);
    lemma_collapse_suffix(before, part);
    lemma_collapse_prefix(before + part, after);
    let head = collapse_newlines(before + part);
    let all = collapse_newlines(whole);
    let small = collapse_newlines(part);
    let at = head.len() - small.len();
    assert(all.subrange(at, at + small.len()) =~= head.subrange(at, head.len() as int)) by {
        assert(all.subrange(0, head.len() as int) == head);
        assert forall|k: int| 0 <= k < head.len() implies all[k] == head[k] by {
            assert(all.subrange(0, head.len() as int)[k] == all[k]);
        }
    }
    assert(matches_at(all, small, at));
}

/// Where a text stands in another, what is left of it after trimming stands
/// in what is left of the other after trimming.
pub proof fn lemma_trim_contains(whole: Seq<char>, part: Seq<char>)
    requires
        contains(whole, part),
    ensures
        contains(trim(whole), trim(part)),
{
    let small = trim(part);
    if small.len() == 0 {
        assert(small =~= Seq::<char>::empty());
        crate::text::lemma_contains_empty(trim(whole));
    } else {
        let o = choose|o: int| matches_at(whole, part, o);
        assert(whole.subrange(o, o + part.len()) == part);
        assert forall|k: int| 0 <= k < part.len() implies part[k] == whole[o + k] by {
            assert(whole.subrange(o, o + part.len())[k] == whole[o + k]);
        }
        lemma_leading_spaces(part);
        let la = crate::text::leading_spaces(part) as int;
        let inner = trim_start(part);
        lemma_trailing_spaces(inner);
        let tr = crate::text::trailing_spaces(inner) as int;
        // the first and the last character of the trimmed part are no whitespace
        assert(small[0] == part[la]);
        assert(small.last() == part[part.len() - tr - 1]);
        assert(inner[0] == part[la]);
        assert(inner[inner.len() - tr - 1] == part[part.len() - tr - 1]);
        lemma_leading_spaces(whole);
        let big_la = crate::text::leading_spaces(whole) as int;
        let big_inner = trim_start(whole);
        lemma_trailing_spaces(big_inner);
        let big_tr = crate::text::trailing_spaces(big_inner) as int;
        let first = o + la;
        let last = o + part.len() - tr - 1;
        assert(!crate::text::is_space(whole[first]));
        assert(!crate::text::is_space(whole[last]));
        assert(first >= big_la);
        assert(big_inner[last - big_la] == whole[last]);
        assert(last - big_la < big_inner.len() - big_tr);
        let big = trim(whole);
        let at = first - big_la;
        assert(big.subrange(at, at + small.len()) =~= small) by {
            assert forall|k: int| 0 <= k < small.len() implies #[trigger] big.subrange(
                at,
                at + small.len(),
            )[k] == small[k] by {
                assert(small[k] == part[la + k]);
                assert(big[at + k] == whole[first + k]);
            }
        }
        assert(matches_at(big, small, at));
    }
}

/// Whatever part of a chapter meets no edit stands in the rewritten chapter,
/// up to what the last step does to it: its runs of three or more line feeds
/// are cut down to two, and it is trimmed.
pub proof fn lemma_rewrite_keeps_text(content: Seq<char>, events: Seq<MdEvent>, x: int, y: int)
    requires
        0 <= x <= y <= content.len(),
        forall|i: int|
            0 <= i < plan_edits(content, fences_of(events), 0).len() ==> y <= (#[trigger] plan_edits(
                content,
                fences_of(events),
                0,
            )[i]).start || plan_edits(content, fences_of(events), 0)[i].end <= x,
    ensures
        contains(rewrite_spec(content, events), finish(content.subrange(x, y))),
{
    let edited = apply_edits(content, plan_edits(content, fences_of(events), 0));
    let kept = content.subrange(x, y);
    lemma_rewrite_keeps_what_no_edit_meets(content, events, x, y);
    lemma_collapse_contains(edited, kept);
    lemma_trim_contains(collapse_newlines(edited), collapse_newlines(kept));
}

/// The edit of every fenced block lies before `x` or behind `y`.
pub open spec fn edits_lie_apart(content: Seq<char>, fences: Seq<FenceView>, x: int, y: int) -> bool {
    forall|j: int|
        0 <= j < fences.len() ==> (#[trigger] fence_edit(content, fences[j]) matches Some(e)
            ==> e.end <= x || y <= e.start)
}

/// A fenced block that names no validator stands in the rewritten chapter
/// with its fences and its body, up to what the last step does to it,
/// where the edits that the other blocks call for lie apart from it.
pub proof fn lemma_plain_fence_is_kept(content: Seq<char>, events: Seq<MdEvent>, k: int)
    requires
        0 <= k < fences_of(events).len(),
        parse_info_spec(fences_of(events)[k].info).validator is None,
        char_range(content, fences_of(events)[k].start, fences_of(events)[k].end) is Some,
        ({
            let f = fences_of(events)[k];
            let (x, y) = char_range(content, f.start, f.end)->0;
            edits_lie_apart(content, fences_of(events), x, y)
        }),
    ensures
        ({
            let f = fences_of(events)[k];
            let (x, y) = char_range(content, f.start, f.end)->0;
            &&& fence_edit(content, f) is None
            &&& contains(rewrite_spec(content, events), finish(content.subrange(x, y)))
        }),
{
    let fences = fences_of(events);
    let (x, y) = char_range(content, fences[k].start, fences[k].end)->0;
    let plan = plan_edits(content, fences, 0);
    assert(0 <= x <= y <= content.len()) by {
        let i = choose|i: int| crate::rewrite::is_char_offset(content, fences[k].start, i);
        let j = choose|j: int| crate::rewrite::is_char_offset(content, fences[k].end, j);
    }
    assert forall|i: int| 0 <= i < plan.len() implies y <= (#[trigger] plan[i]).start || plan[i].end
        <= x by {
        lemma_edits_come_from_validator_blocks(content, fences, 0, i);
        let j = choose|j: int|
            0 <= j < fences.len() && parse_info_spec((#[trigger] fences[j]).info).validator is Some
                && fence_edit(content, fences[j]) == Some(plan[i]);
        assert(fence_edit(content, fences[j]) matches Some(e) ==> e.end <= x || y <= e.start);
    }
    lemma_rewrite_keeps_text(content, events, x, y);
}

/// The fenced blocks call for edits that come one after another: none
/// begins before the one before it has ended.
pub open spec fn edits_in_order(content: Seq<char>, fences: Seq<FenceView>, cursor: int) -> bool
    decreases fences.len(),
{
    if fences.len() == 0 {
        true
    } else {
        match fence_edit(content, fences[0]) {
            Some(e) => cursor <= e.start && edits_in_order(content, fences.drop_first(), e.end),
            None => edits_in_order(content, fences.drop_first(), cursor),
        }
    }
}

/// Where the edits come one after another, none is passed over: the edit of
/// every fenced block is among the edits of the chapter.
pub proof fn lemma_in_order_no_edit_is_passed_over(
    content: Seq<char>,
    fences: Seq<FenceView>,
    cursor: int,
    k: int,
)
    requires
        edits_in_order(content, fences, cursor),
        0 <= k < fences.len(),
        fence_edit(content, fences[k]) is Some,
    ensures
        exists|i: int|
            0 <= i < plan_edits(content, fences, cursor).len() && #[trigger] plan_edits(
                content,
                fences,
                cursor,
            )[i] == fence_edit(content, fences[k])->0,
    decreases fences.len(),
{
    let rest = fences.drop_first();
    let plan = plan_edits(content, fences, cursor);
    match fence_edit(content, fences[0]) {
        Some(e) => {
            if k == 0 {
                assert(plan[0] == e);
            } else {
                assert(rest[k - 1] == fences[k]);
                lemma_in_order_no_edit_is_passed_over(content, rest, e.end, k - 1);
                let below = plan_edits(content, rest, e.end);
                let i = choose|i: int|
                    0 <= i < below.len() && #[trigger] below[i] == fence_edit(
                        content,
                        fences[k],
                    )->0;
                assert(plan[i + 1] == below[i]);
            }
        },
        None => {
            assert(rest[k - 1] == fences[k]);
            lemma_in_order_no_edit_is_passed_over(content, rest, cursor, k - 1);
            let below = plan_edits(content, rest, cursor);
            let i = choose|i: int|
                0 <= i < below.len() && #[trigger] below[i] == fence_edit(content, fences[k])->0;
            assert(plan[i] == below[i]);
        },
    }
}

/// Where the edits of a chapter come one after another, a hidden validator
/// block is gone from the edited text with all that stands from the
/// beginning of the line of its opening fence through the line ending
/// behind its closing fence: the edited text is made of what the other
/// edits leave of the text before that range and of the text behind it.
pub proof fn lemma_hidden_block_is_gone(content: Seq<char>, events: Seq<MdEvent>, k: int)
    requires
        edits_in_order(content, fences_of(events), 0),
        0 <= k < fences_of(events).len(),
        parse_info_spec(fences_of(events)[k].info).validator is Some,
        parse_info_spec(fences_of(events)[k].info).hidden,
        char_range(content, fences_of(events)[k].start, fences_of(events)[k].end) is Some,
    ensures
        ({
            let f = fences_of(events)[k];
            let (a, b) = char_range(content, f.start, f.end)->0;
            let plan = plan_edits(content, fences_of(events), 0);
            exists|i: int|
                0 <= i < plan.len() && (#[trigger] plan[i]).start == line_start(content, a)
                    && plan[i].end == past_newline(content, b) && plan[i].start <= a <= b
                    <= plan[i].end && apply_edits(content, plan) == pieces(
                    content,
                    plan.take(i),
                    0,
                    plan[i].start,
                ) + pieces(content, plan.skip(i + 1), plan[i].end, content.len() as int)
        }),
{
    let fences = fences_of(events);
    let plan = plan_edits(content, fences, 0);
    lemma_hidden_block_is_deleted(content, fences[k]);
    lemma_in_order_no_edit_is_passed_over(content, fences, 0, k);
    let i = choose|i: int|
        0 <= i < plan.len() && #[trigger] plan[i] == fence_edit(content, fences[k])->0;
    crate::rewrite::lemma_plan_ordered(content, fences, 0);
    lemma_deleted_range_is_gone(content, plan, i);
}

/// The last step of rewriting changes nothing when it is taken twice.
pub proof fn lemma_finish_idempotent(s: Seq<char>)
    ensures
        finish(finish(s)) == finish(s),
{
    let collapsed = collapse_newlines(s);
    lemma_collapse_leaves_no_long_run(s);
    let done = trim(collapsed);
    lemma_leading_spaces(collapsed);
    lemma_trailing_spaces(trim_start(collapsed));
    let a = crate::text::leading_spaces(collapsed) as int;
    assert forall|i: int| 0 <= i && i + 2 < done.len() implies !(#[trigger] done[i] == '\n'
        && done[i + 1] == '\n' && done[i + 2] == '\n') by {
        assert(done[i] == collapsed[i + a]);
        assert(done[i + 1] == collapsed[i + a + 1]);
        assert(done[i + 2] == collapsed[i + a + 2]);
    }
    lemma_collapse_fixed(done);
    lemma_trim_idempotent(collapsed);
}

/// A rewritten chapter whose own parse calls for no edit is rewritten to
/// itself.
pub proof fn lemma_rewritten_chapter_without_edits_is_fixed(
    content: Seq<char>,
    events: Seq<MdEvent>,
    again: Seq<MdEvent>,
)
    requires
        plan_edits(rewrite_spec(content, events), fences_of(again), 0).len() == 0,
    ensures
        rewrite_spec(rewrite_spec(content, events), again) == rewrite_spec(content, events),
{
    let once = rewrite_spec(content, events);
    lemma_finish_idempotent(apply_edits(content, plan_edits(content, fences_of(events), 0)));
    assert(plan_edits(once, fences_of(again), 0) =~= Seq::<EditView>::empty());
}

} // verus!
