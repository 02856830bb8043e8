//! The info string of a fence and its canonical form.

use vstd::prelude::*;
use crate::lines::{join, lemma_tokens_none, lemma_tokens_step, lemma_word_len, tokens, word_len};
use crate::parser::{
    canonical_spec, canonical_tokens, first_validator_value, info_of_tokens, parse_info_spec,
    validator_key,
};
use crate::text::{is_space, leading_spaces, lemma_leading_spaces, starts_with, trim_start};

verus! {

/// A word: not empty, and without whitespace.
pub open spec fn is_word(w: Seq<char>) -> bool {
    w.len() > 0 && forall|k: int| 0 <= k < w.len() ==> !is_space(#[trigger] w[k])
}

pub open spec fn all_words(words: Seq<Seq<char>>) -> bool {
    forall|i: int| 0 <= i < words.len() ==> is_word(#[trigger] words[i])
}

/// The bounds of the first token of a text that is not all whitespace.
proof fn lemma_first_token(s: Seq<char>) -> (r: (int, int))
    requires
        leading_spaces(s) < s.len(),
    ensures
        0 <= r.0 < r.1 <= s.len(),
        forall|k: int| 0 <= k < r.0 ==> is_space(#[trigger] s[k]),
        forall|k: int| r.0 <= k < r.1 ==> !is_space(#[trigger] s[k]),
        r.1 < s.len() ==> is_space(s[r.1]),
        tokens(s) == seq![s.subrange(r.0, r.1)] + tokens(s.skip(r.1)),
{
    lemma_leading_spaces(s);
    let a = leading_spaces(s) as int;
    let t = trim_start(s);
    lemma_word_len(t);
    assert(t[0] == s[a]);
    let b = a + word_len(t);
    assert forall|k: int| a <= k < b implies !is_space(#[trigger] s[k]) by {
        assert(t[k - a] == s[k]);
    }
    if b < s.len() {
        assert(t[b - a] == s[b]);
    }
    lemma_tokens_step(s, a, b);
    (a, b)
}

/// Every token is a word.
pub proof fn lemma_tokens_are_words(s: Seq<char>)
    ensures
        all_words(tokens(s)),
    decreases s.len(),
{
    lemma_leading_spaces(s);
    if leading_spaces(s) < s.len() {
        let (a, b) = lemma_first_token(s);
        lemma_tokens_are_words(s.skip(b));
        let rest = tokens(s.skip(b));
        let all = tokens(s);
        assert forall|i: int| 0 <= i < all.len() implies is_word(#[trigger] all[i]) by {
            if i == 0 {
                let w = s.subrange(a, b);
                assert forall|k: int| 0 <= k < w.len() implies !is_space(#[trigger] w[k]) by {
                    assert(w[k] == s[a + k]);
                }
            } else {
                assert(all[i] == rest[i - 1]);
            }
        }
    } else {
        lemma_tokens_none(s);
    }
}

/// A word behind a text and a space is one more token.
pub proof fn lemma_tokens_append_word(s: Seq<char>, w: Seq<char>)
    requires
        is_word(w),
    ensures
        tokens(s + seq![' '] + w) == tokens(s).push(w),
    decreases s.len(),
{
    let longer = s + seq![' '] + w;
    lemma_leading_spaces(s);
    assert(is_space(' '));
    if leading_spaces(s) < s.len() {
        let (a, b) = lemma_first_token(s);
        assert forall|k: int| 0 <= k < a implies is_space(#[trigger] longer[k]) by {
            assert(longer[k] == s[k]);
        }
        assert forall|k: int| a <= k < b implies !is_space(#[trigger] longer[k]) by {
            assert(longer[k] == s[k]);
        }
        if b < s.len() {
            assert(longer[b] == s[b]);
        } else {
            assert(longer[b] == ' ');
        }
        lemma_tokens_step(longer, a, b);
        assert(longer.subrange(a, b) =~= s.subrange(a, b));
        assert(longer.skip(b) =~= s.skip(b) + seq![' '] + w);
        lemma_tokens_append_word(s.skip(b), w);
        assert(seq![s.subrange(a, b)] + tokens(s.skip(b)).push(w) =~= (seq![s.subrange(a, b)]
            + tokens(s.skip(b))).push(w));
    } else {
        lemma_tokens_none(s);
        let n = s.len() as int;
        assert forall|k: int| 0 <= k < n + 1 implies is_space(#[trigger] longer[k]) by {
            if k < n {
                assert(longer[k] == s[k]);
            }
        }
        assert forall|k: int| n + 1 <= k < longer.len() implies !is_space(#[trigger] longer[k]) by {
            assert(longer[k] == w[k - n - 1]);
        }
        lemma_tokens_step(longer, n + 1, longer.len() as int);
        assert(longer.subrange(n + 1, longer.len() as int) =~= w);
        assert(longer.skip(longer.len() as int) =~= Seq::<char>::empty());
        lemma_tokens_none(Seq::<char>::empty());
        assert(seq![w] + Seq::<Seq<char>>::empty() =~= Seq::<Seq<char>>::empty().push(w));
    }
}

/// The tokens of words joined by single spaces are those words.
pub proof fn lemma_tokens_of_joined_words(words: Seq<Seq<char>>)
    requires
        all_words(words),
    ensures
        tokens(join(words, seq![' '])) == words,
    decreases words.len(),
{
    if words.len() == 0 {
        lemma_tokens_none(Seq::<char>::empty());
        assert(words =~= Seq::<Seq<char>>::empty());
    } else if words.len() == 1 {
        let w = words[0];
        lemma_tokens_step(w, 0, w.len() as int);
        assert(w.subrange(0, w.len() as int) =~= w);
        assert(w.skip(w.len() as int) =~= Seq::<char>::empty());
        lemma_tokens_none(Seq::<char>::empty());
        assert(seq![w] + Seq::<Seq<char>>::empty() =~= words);
    } else {
        let before = words.drop_last();
        assert forall|i: int| 0 <= i < before.len() implies is_word(#[trigger] before[i]) by {
            assert(before[i] == words[i]);
        }
        lemma_tokens_of_joined_words(before);
        lemma_tokens_append_word(join(before, seq![' ']), words.last());
        assert(before.push(words.last()) =~= words);
    }
}

/// The first validator value of two runs of tokens is that of the first run,
/// or else that of the second.
proof fn lemma_first_validator_concat(a: Seq<Seq<char>>, b: Seq<Seq<char>>)
    ensures
        first_validator_value(a + b) == match first_validator_value(a) {
            Some(v) => Some(v),
            None => first_validator_value(b),
        },
    decreases a.len(),
{
    if a.len() == 0 {
        assert(a + b =~= b);
    } else {
        assert((a + b)[0] == a[0]);
        assert((a + b).drop_first() =~= a.drop_first() + b);
        lemma_first_validator_concat(a.drop_first(), b);
    }
}

proof fn lemma_first_validator_one(t: Seq<char>)
    ensures
        first_validator_value(seq![t]) == if starts_with(t, validator_key()) {
            Some(t.skip(validator_key().len() as int))
        } else {
            None
        },
        first_validator_value(Seq::<Seq<char>>::empty()) is None,
{
    assert(seq![t].drop_first() =~= Seq::<Seq<char>>::empty());
}

/// Where a value is found, it is what follows the key in one of the tokens.
proof fn lemma_first_validator_from_token(toks: Seq<Seq<char>>)
    ensures
        first_validator_value(toks) matches Some(v) ==> exists|j: int|
            0 <= j < toks.len() && starts_with(#[trigger] toks[j], validator_key()) && v
                == toks[j].skip(validator_key().len() as int),
    decreases toks.len(),
{
    if toks.len() > 0 && !starts_with(toks[0], validator_key()) {
        lemma_first_validator_from_token(toks.drop_first());
        if let Some(v) = first_validator_value(toks) {
            let j = choose|j: int|
                0 <= j < toks.drop_first().len() && starts_with(
                    #[trigger] toks.drop_first()[j],
                    validator_key(),
                ) && v == toks.drop_first()[j].skip(validator_key().len() as int);
            assert(toks[j + 1] == toks.drop_first()[j]);
        }
    }
}

proof fn lemma_contains_concat(a: Seq<Seq<char>>, b: Seq<Seq<char>>, x: Seq<char>)
    ensures
        (a + b).contains(x) == (a.contains(x) || b.contains(x)),
{
    if a.contains(x) {
        let i = choose|i: int| 0 <= i < a.len() && a[i] == x;
        assert((a + b)[i] == x);
    }
    if b.contains(x) {
        let i = choose|i: int| 0 <= i < b.len() && b[i] == x;
        assert((a + b)[a.len() + i] == x);
    }
    if (a + b).contains(x) {
        let i = choose|i: int| 0 <= i < (a + b).len() && (a + b)[i] == x;
        if i < a.len() {
            assert(a[i] == x);
        } else {
            assert(b[i - a.len()] == x);
        }
    }
}

/// The record that an info string parses to is kept when it is written out
/// in canonical form and parsed again.
pub proof fn lemma_canonical_round_trip(info: Seq<char>)
    ensures
        parse_info_spec(canonical_spec(parse_info_spec(info))) == parse_info_spec(info),
{
    let toks = tokens(info);
    let record = parse_info_spec(info);
    let key = validator_key();
    let none = Seq::<Seq<char>>::empty();
    reveal_strlit("validator=");
    reveal_strlit("skip");
    reveal_strlit("hidden");
    lemma_tokens_are_words(info);
    lemma_first_validator_from_token(toks);
    lemma_first_validator_one(Seq::empty());
    if toks.len() == 0 {
        assert(canonical_tokens(record) =~= none);
        lemma_tokens_none(Seq::<char>::empty());
        assert(!none.contains("skip"@));
        assert(!none.contains("hidden"@));
    } else {
        let language = toks[0];
        assert(is_word(language));
        let l = seq![language];
        let v = match record.validator {
            Some(name) => seq![key + name],
            None => none,
        };
        let s = if record.skip {
            seq!["skip"@]
        } else {
            none
        };
        let h = if record.hidden {
            seq!["hidden"@]
        } else {
            none
        };
        let canon = canonical_tokens(record);
        assert(canon == l + v + s + h);
        // every canonical token is a word
        assert(is_word("skip"@));
        assert(is_word("hidden"@));
        if let Some(name) = record.validator {
            let found = first_validator_value(toks)->0;
            let j = choose|j: int|
                0 <= j < toks.len() && starts_with(#[trigger] toks[j], key) && found
                    == toks[j].skip(key.len() as int);
            assert(is_word(toks[j]));
            let token = key + name;
            assert forall|k: int| 0 <= k < token.len() implies !is_space(#[trigger] token[k]) by {
                if k >= key.len() {
                    assert(token[k] == toks[j][k]);
                }
            }
            assert(token.subrange(0, key.len() as int) =~= key);
            assert(token.skip(key.len() as int) =~= name);
            assert(token[0] == 'v');
        }
        assert forall|i: int| 0 <= i < canon.len() implies is_word(#[trigger] canon[i]) by {
            if i < l.len() {
                assert(canon[i] == l[i]);
            } else if i < l.len() + v.len() {
                assert(canon[i] == v[i - l.len()]);
            } else if i < l.len() + v.len() + s.len() {
                assert(canon[i] == s[i - l.len() - v.len()]);
            } else {
                assert(canon[i] == h[i - l.len() - v.len() - s.len()]);
            }
        }
        lemma_tokens_of_joined_words(canon);
        assert(tokens(canonical_spec(record)) == canon);
        assert(canon[0] == language);
        // the validator
        lemma_first_validator_concat(l + v + s, h);
        lemma_first_validator_concat(l + v, s);
        lemma_first_validator_concat(l, v);
        lemma_first_validator_one(language);
        lemma_first_validator_one("skip"@);
        lemma_first_validator_one("hidden"@);
        if let Some(name) = record.validator {
            lemma_first_validator_one(key + name);
        }
        assert(!starts_with("skip"@, key));
        assert(!starts_with("hidden"@, key));
        assert(toks.drop_first().len() == toks.len() - 1);
        // the two flags
        lemma_contains_concat(l + v + s, h, "skip"@);
        lemma_contains_concat(l + v, s, "skip"@);
        lemma_contains_concat(l, v, "skip"@);
        lemma_contains_concat(l + v + s, h, "hidden"@);
        lemma_contains_concat(l + v, s, "hidden"@);
        lemma_contains_concat(l, v, "hidden"@);
        assert("skip"@[0] == 's');
        assert("hidden"@[0] == 'h');
        assert(l.contains("skip"@) ==> toks.contains("skip"@)) by {
            if l.contains("skip"@) {
                let i = choose|i: int| 0 <= i < l.len() && l[i] == "skip"@;
                assert(toks[0] == "skip"@);
            }
        }
        assert(l.contains("hidden"@) ==> toks.contains("hidden"@)) by {
            if l.contains("hidden"@) {
                let i = choose|i: int| 0 <= i < l.len() && l[i] == "hidden"@;
                assert(toks[0] == "hidden"@);
            }
        }
        assert(!v.contains("skip"@) && !v.contains("hidden"@)) by {
            if v.contains("skip"@) {
                let i = choose|i: int| 0 <= i < v.len() && v[i] == "skip"@;
                assert(v[i][0] == 'v');
            }
            if v.contains("hidden"@) {
                let i = choose|i: int| 0 <= i < v.len() && v[i] == "hidden"@;
                assert(v[i][0] == 'v');
            }
        }
        assert(s.contains("skip"@) == record.skip) by {
            if record.skip {
                assert(s[0] == "skip"@);
            }
        }
        assert(!s.contains("hidden"@)) by {
            if s.contains("hidden"@) {
                let i = choose|i: int| 0 <= i < s.len() && s[i] == "hidden"@;
                assert(s[i][0] == 's');
            }
        }
        assert(h.contains("hidden"@) == record.hidden) by {
            if record.hidden {
                assert(h[0] == "hidden"@);
            }
        }
        assert(!h.contains("skip"@)) by {
            if h.contains("skip"@) {
                let i = choose|i: int| 0 <= i < h.len() && h[i] == "skip"@;
                assert(h[i][0] == 'h');
            }
        }
        assert(info_of_tokens(canon).skip == record.skip);
        assert(info_of_tokens(canon).hidden == record.hidden);
        assert(info_of_tokens(canon).language == record.language);
        assert(info_of_tokens(canon).validator == record.validator);
    }
}

} // verus!
