//! Lines, joins and whitespace-separated tokens of a character sequence.

use vstd::prelude::*;
use crate::text::{char_is_space, is_space, lemma_leading_spaces_is, push_all, slice_of, trim_start};

verus! {

/// The views of a vector of character vectors.
pub open spec fn views(parts: Seq<Vec<char>>) -> Seq<Seq<char>> {
    Seq::new(parts.len(), |i: int| parts[i]@)
}

/// Number of characters before the first line feed of `s`; the whole length
/// where it has none.
pub open spec fn line_end(s: Seq<char>) -> nat
    decreases s.len(),
{
    if s.len() == 0 || s[0] == '\n' {
        0
    } else {
        1 + line_end(s.drop_first())
    }
}

/// A line without the carriage return that may precede its line feed.
pub open spec fn strip_cr(line: Seq<char>) -> Seq<char> {
    if line.len() > 0 && line.last() == '\r' {
        line.drop_last()
    } else {
        line
    }
}

/// The lines of `s`. A line ends at a line feed, which is not part of the
/// line, nor is a carriage return directly before it. A final line without a
/// line feed is kept as it is; an empty final line is no line.
pub open spec fn lines(s: Seq<char>) -> Seq<Seq<char>>
    decreases s.len(),
{
    if s.len() == 0 {
        Seq::empty()
    } else {
        let n = line_end(s) as int;
        if n >= s.len() {
            seq![s]
        } else {
            seq![strip_cr(s.take(n))] + lines(s.skip(n + 1))
        }
    }
}

/// The parts written one after another with `sep` between neighbours.
pub open spec fn join(parts: Seq<Seq<char>>, sep: Seq<char>) -> Seq<char>
    decreases parts.len(),
{
    if parts.len() == 0 {
        Seq::empty()
    } else if parts.len() == 1 {
        parts[0]
    } else {
        join(parts.drop_last(), sep) + sep + parts.last()
    }
}

/// Number of characters at the front of `s` that are no whitespace.
pub open spec fn word_len(s: Seq<char>) -> nat
    decreases s.len(),
{
    if s.len() > 0 && !is_space(s[0]) {
        1 + word_len(s.drop_first())
    } else {
        0
    }
}

/// The maximal runs of non-whitespace characters of `s`, in order.
pub open spec fn tokens(s: Seq<char>) -> Seq<Seq<char>>
    decreases s.len(),
{
    let t = trim_start(s);
    let n = word_len(t) as int;
    if n == 0 || n > t.len() || t.len() > s.len() {
        Seq::empty()
    } else {
        seq![t.take(n)] + tokens(t.skip(n))
    }
}

pub proof fn lemma_line_end(s: Seq<char>)
    ensures
        line_end(s) <= s.len(),
        forall|k: int| 0 <= k < line_end(s) ==> #[trigger] s[k] != '\n',
        line_end(s) < s.len() ==> s[line_end(s) as int] == '\n',
    decreases s.len(),
{
    if s.len() == 0 || s[0] == '\n' {
    } else {
        let t = s.drop_first();
        lemma_line_end(t);
        assert forall|k: int| 0 <= k < line_end(s) implies #[trigger] s[k] != '\n' by {
            if k > 0 {
                assert(s[k] == t[k - 1]);
            }
        }
        if line_end(s) < s.len() {
            assert(s[line_end(s) as int] == t[line_end(t) as int]);
        }
    }
}

pub proof fn lemma_line_end_is(s: Seq<char>, n: int)
    requires
        0 <= n <= s.len(),
        forall|k: int| 0 <= k < n ==> #[trigger] s[k] != '\n',
        n < s.len() ==> s[n] == '\n',
    ensures
        line_end(s) == n,
{
    lemma_line_end(s);
    let m = line_end(s) as int;
    if m < n {
        assert(s[m] != '\n');
    } else if n < m {
        assert(s[n] != '\n');
    }
}

pub proof fn lemma_word_len(s: Seq<char>)
    ensures
        word_len(s) <= s.len(),
        forall|k: int| 0 <= k < word_len(s) ==> !is_space(#[trigger] s[k]),
        word_len(s) < s.len() ==> is_space(s[word_len(s) as int]),
    decreases s.len(),
{
    if s.len() > 0 && !is_space(s[0]) {
        let t = s.drop_first();
        lemma_word_len(t);
        assert forall|k: int| 0 <= k < word_len(s) implies !is_space(#[trigger] s[k]) by {
            if k > 0 {
                assert(s[k] == t[k - 1]);
            }
        }
        if word_len(s) < s.len() {
            assert(s[word_len(s) as int] == t[word_len(t) as int]);
        }
    }
}

pub proof fn lemma_word_len_is(s: Seq<char>, n: int)
    requires
        0 <= n <= s.len(),
        forall|k: int| 0 <= k < n ==> !is_space(#[trigger] s[k]),
        n < s.len() ==> is_space(s[n]),
    ensures
        word_len(s) == n,
{
    lemma_word_len(s);
    let m = word_len(s) as int;
    if m < n {
        assert(!is_space(s[m]));
    } else if n < m {
        assert(!is_space(s[n]));
    }
}

/// Joining one more part appends the separator and the part, unless the
/// joined parts were none.
pub proof fn lemma_join_push(parts: Seq<Seq<char>>, sep: Seq<char>, last: Seq<char>)
    ensures
        join(parts.push(last), sep) == if parts.len() == 0 {
            last
        } else {
            join(parts, sep) + sep + last
        },
{
    let all = parts.push(last);
    assert(all.drop_last() == parts);
    assert(all.last() == last);
}

pub fn join_exec(parts: &Vec<Vec<char>>, sep: &Vec<char>) -> (r: Vec<char>)
    ensures
        r@ == join(views(parts@), sep@),
{
    let mut r: Vec<char> = Vec::new();
    let mut i: usize = 0;
    while i < parts.len()
        invariant
            i <= parts.len(),
            r@ == join(views(parts@).take(i as int), sep@),
        decreases parts.len() - i,
    {
        proof {
            let done = views(parts@).take(i as int);
            lemma_join_push(done, sep@, parts@[i as int]@);
            assert(views(parts@).take(i + 1) == done.push(parts@[i as int]@));
        }
        if i > 0 {
            push_all(&mut r, sep);
        }
        push_all(&mut r, &parts[i]);
        i += 1;
    }
    assert(views(parts@).take(parts.len() as int) == views(parts@));
    r
}

/// Where the first line of `s` ends at a line feed, the lines of `s` are that
/// line and the lines of what follows the line feed.
pub proof fn lemma_lines_step(s: Seq<char>, n: int)
    requires
        0 <= n < s.len(),
        forall|k: int| 0 <= k < n ==> #[trigger] s[k] != '\n',
        s[n] == '\n',
    ensures
        lines(s) == seq![strip_cr(s.take(n))] + lines(s.skip(n + 1)),
{
    lemma_line_end_is(s, n);
}

pub proof fn lemma_lines_last(s: Seq<char>)
    requires
        forall|k: int| 0 <= k < s.len() ==> #[trigger] s[k] != '\n',
    ensures
        lines(s) == if s.len() == 0 {
            Seq::<Seq<char>>::empty()
        } else {
            seq![s]
        },
{
    lemma_line_end_is(s, s.len() as int);
}

pub fn lines_exec(v: &Vec<char>) -> (r: Vec<Vec<char>>)
    ensures
        views(r@) == lines(v@),
{
    let mut r: Vec<Vec<char>> = Vec::new();
    let mut start: usize = 0;
    let mut i: usize = 0;
    proof {
        assert(v@.skip(0) == v@);
        assert(views(r@) + lines(v@) == lines(v@));
    }
    while i < v.len()
        invariant
            start <= i <= v.len(),
            forall|k: int| start <= k < i ==> #[trigger] v@[k] != '\n',
            lines(v@) == views(r@) + lines(v@.skip(start as int)),
        decreases v.len() - i,
    {
        if v[i] == '\n' {
            let end = if i > start && v[i - 1] == '\r' {
                i - 1
            } else {
                i
            };
            let line = slice_of(v, start, end);
            proof {
                let rest = v@.skip(start as int);
                assert forall|k: int| 0 <= k < i - start implies #[trigger] rest[k] != '\n' by {
                    assert(rest[k] == v@[start + k]);
                }
                lemma_lines_step(rest, i - start);
                assert(rest.skip(i - start + 1) == v@.skip(i + 1));
                let raw = rest.take(i - start);
                assert(raw == v@.subrange(start as int, i as int));
                if i > start {
                    assert(raw.last() == v@[i - 1]);
                }
                assert(strip_cr(raw) == line@);
                assert(views(r@.push(line)) == views(r@) + seq![line@]);
            }
            r.push(line);
            start = i + 1;
        }
        i += 1;
    }
    proof {
        let rest = v@.skip(start as int);
        assert forall|k: int| 0 <= k < rest.len() implies #[trigger] rest[k] != '\n' by {
            assert(rest[k] == v@[start + k]);
        }
        lemma_lines_last(rest);
    }
    if start < v.len() {
        let line = slice_of(v, start, v.len());
        proof {
            assert(line@ == v@.skip(start as int));
            assert(views(r@.push(line)) == views(r@) + seq![line@]);
        }
        r.push(line);
    } else {
        assert(views(r@) + Seq::<Seq<char>>::empty() == views(r@));
    }
    r
}

/// The tokens of `s`, where its first token begins at `a` and ends before `b`.
pub proof fn lemma_tokens_step(s: Seq<char>, a: int, b: int)
    requires
        0 <= a < b <= s.len(),
        forall|k: int| 0 <= k < a ==> is_space(#[trigger] s[k]),
        forall|k: int| a <= k < b ==> !is_space(#[trigger] s[k]),
        b < s.len() ==> is_space(s[b]),
    ensures
        tokens(s) == seq![s.subrange(a, b)] + tokens(s.skip(b)),
{
    lemma_leading_spaces_is(s, a);
    let t = trim_start(s);
    assert forall|k: int| 0 <= k < b - a implies !is_space(#[trigger] t[k]) by {
        assert(t[k] == s[a + k]);
    }
    if b < s.len() {
        assert(t[b - a] == s[b]);
    }
    lemma_word_len_is(t, b - a);
    assert(t.take(b - a) == s.subrange(a, b));
    assert(t.skip(b - a) == s.skip(b));
}

pub proof fn lemma_tokens_none(s: Seq<char>)
    requires
        forall|k: int| 0 <= k < s.len() ==> is_space(#[trigger] s[k]),
    ensures
        tokens(s) == Seq::<Seq<char>>::empty(),
{
    lemma_leading_spaces_is(s, s.len() as int);
    assert(trim_start(s).len() == 0);
}

pub fn tokens_exec(v: &Vec<char>) -> (r: Vec<Vec<char>>)
    ensures
        views(r@) == tokens(v@),
{
    let mut r: Vec<Vec<char>> = Vec::new();
    let mut i: usize = 0;
    proof {
        assert(v@.skip(0) == v@);
        assert(views(r@) + tokens(v@) == tokens(v@));
    }
    loop
        invariant
            i <= v.len(),
            tokens(v@) == views(r@) + tokens(v@.skip(i as int)),
        ensures
            views(r@) == tokens(v@),
        decreases v.len() - i,
    {
        let a0 = i;
        while i < v.len() && char_is_space(v[i])
            invariant
                a0 <= i <= v.len(),
                forall|k: int| a0 <= k < i ==> is_space(#[trigger] v@[k]),
            decreases v.len() - i,
        {
            i += 1;
        }
        let a = i;
        if a == v.len() {
            proof {
                let rest = v@.skip(a0 as int);
                assert forall|k: int| 0 <= k < rest.len() implies is_space(#[trigger] rest[k]) by {
                    assert(rest[k] == v@[a0 + k]);
                }
                lemma_tokens_none(rest);
                assert(views(r@) + Seq::<Seq<char>>::empty() == views(r@));
            }
            break;
        }
        while i < v.len() && !char_is_space(v[i])
            invariant
                a <= i <= v.len(),
                a < v.len(),
                !is_space(v@[a as int]),
                forall|k: int| a <= k < i ==> !is_space(#[trigger] v@[k]),
            decreases v.len() - i,
        {
            i += 1;
        }
        let word = slice_of(v, a, i);
        proof {
            let rest = v@.skip(a0 as int);
            assert forall|k: int| 0 <= k < a - a0 implies is_space(#[trigger] rest[k]) by {
                assert(rest[k] == v@[a0 + k]);
            }
            assert forall|k: int| a - a0 <= k < i - a0 implies !is_space(#[trigger] rest[k]) by {
                assert(rest[k] == v@[a0 + k]);
            }
            if i < v.len() {
                assert(rest[i - a0] == v@[i as int]);
            }
            lemma_tokens_step(rest, a - a0, i - a0);
            assert(rest.subrange(a - a0, i - a0) == word@);
            assert(rest.skip(i - a0) == v@.skip(i as int));
            assert(views(r@.push(word)) == views(r@) + seq![word@]);
        }
        r.push(word);
    }
    r
}

} // verus!
