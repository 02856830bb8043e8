//! Fence metadata and the markers inside a code block's body.

use vstd::prelude::*;
use crate::lines::{join, join_exec, lines, lines_exec, tokens, tokens_exec, views};
use crate::text::{
    chars_of, matches_at_exec, push_all, seq_eq, slice_of, starts_with, string_of, trim,
    trim_chars,
};
use crate::transpiler::{at_prefix, first_region, first_region_exec, line_feed};

verus! {

/// The token prefix that names a validator.
pub open spec fn validator_key() -> Seq<char> {
    "validator="@
}

/// What the opening line of a fence says.
#[derive(Debug, Clone)]
pub struct InfoString {
    /// The first token, a language tag that is not interpreted.
    pub language: String,
    /// The validator named by the first `validator=` token, unless its value
    /// is empty.
    pub validator: Option<String>,
    /// Whether a token `skip` is present.
    pub skip: bool,
    /// Whether a token `hidden` is present.
    pub hidden: bool,
}

pub struct InfoView {
    pub language: Seq<char>,
    pub validator: Option<Seq<char>>,
    pub skip: bool,
    pub hidden: bool,
}

pub open spec fn opt_view(o: Option<String>) -> Option<Seq<char>> {
    match o {
        Some(s) => Some(s@),
        None => None,
    }
}

impl View for InfoString {
    type V = InfoView;

    open spec fn view(&self) -> InfoView {
        InfoView {
            language: self.language@,
            validator: opt_view(self.validator),
            skip: self.skip,
            hidden: self.hidden,
        }
    }
}

/// The value of the first token that begins with `validator=`.
pub open spec fn first_validator_value(toks: Seq<Seq<char>>) -> Option<Seq<char>>
    decreases toks.len(),
{
    if toks.len() == 0 {
        None
    } else if starts_with(toks[0], validator_key()) {
        Some(toks[0].skip(validator_key().len() as int))
    } else {
        first_validator_value(toks.drop_first())
    }
}

/// What a fence's tokens say: the first is the language; the first token
/// `validator=<name>` names the validator, and none is named where its value
/// is empty; `skip` and `hidden` count wherever they stand.
pub open spec fn info_of_tokens(toks: Seq<Seq<char>>) -> InfoView {
    InfoView {
        language: if toks.len() == 0 {
            Seq::empty()
        } else {
            toks[0]
        },
        validator: match first_validator_value(toks) {
            Some(name) => if name.len() > 0 {
                Some(name)
            } else {
                None
            },
            None => None,
        },
        skip: toks.contains("skip"@),
        hidden: toks.contains("hidden"@),
    }
}

pub open spec fn parse_info_spec(info: Seq<char>) -> InfoView {
    info_of_tokens(tokens(info))
}

/// The recognised tokens of a fence in their fixed order: the language, the
/// validator, `skip`, `hidden`, each only where the fence has it.
pub open spec fn canonical_tokens(info: InfoView) -> Seq<Seq<char>> {
    (if info.language.len() > 0 {
        seq![info.language]
    } else {
        Seq::empty()
    }) + (match info.validator {
        Some(name) => seq![validator_key() + name],
        None => Seq::empty(),
    }) + (if info.skip {
        seq!["skip"@]
    } else {
        Seq::empty()
    }) + (if info.hidden {
        seq!["hidden"@]
    } else {
        Seq::empty()
    })
}

/// The info string that states a fence's recognised tokens in their fixed
/// order, with single spaces between them.
pub open spec fn canonical_spec(info: InfoView) -> Seq<char> {
    join(canonical_tokens(info), seq![' '])
}

/// A fence is a validator block if and only if it names a validator.
pub open spec fn is_validator_info(info: Seq<char>) -> bool {
    parse_info_spec(info).validator is Some
}

fn find_validator(toks: &Vec<Vec<char>>) -> (r: Option<Vec<char>>)
    ensures
        match r {
            Some(name) => first_validator_value(views(toks@)) == Some(name@),
            None => first_validator_value(views(toks@)) is None,
        },
{
    let key = chars_of("validator=");
    let mut i: usize = 0;
    assert(views(toks@).skip(0) == views(toks@));
    while i < toks.len()
        invariant
            i <= toks.len(),
            key@ == validator_key(),
            first_validator_value(views(toks@)) == first_validator_value(
                views(toks@).skip(i as int),
            ),
        decreases toks.len() - i,
    {
        let ghost rest = views(toks@).skip(i as int);
        assert(rest[0] == toks@[i as int]@);
        assert(rest.drop_first() == views(toks@).skip(i + 1));
        if matches_at_exec(&toks[i], &key, 0) {
            let name = slice_of(&toks[i], key.len(), toks[i].len());
            assert(name@ == toks@[i as int]@.skip(key@.len() as int));
            return Some(name);
        }
        i += 1;
    }
    None
}

fn has_token(toks: &Vec<Vec<char>>, word: &Vec<char>) -> (r: bool)
    ensures
        r == views(toks@).contains(word@),
{
    let mut i: usize = 0;
    while i < toks.len()
        invariant
            i <= toks.len(),
            forall|k: int| 0 <= k < i ==> views(toks@)[k] != word@,
        decreases toks.len() - i,
    {
        if seq_eq(&toks[i], word) {
            assert(views(toks@)[i as int] == word@);
            return true;
        }
        i += 1;
    }
    false
}

/// Reads the opening line of a fence.
pub fn parse_fence_info(info: &str) -> (r: InfoString)
    ensures
        r@ == parse_info_spec(info@),
{
    let toks = tokens_exec(&chars_of(info));
    let language = if toks.len() == 0 {
        String::new()
    } else {
        string_of(&toks[0])
    };
    let validator = match find_validator(&toks) {
        Some(name) => if name.len() > 0 {
            Some(string_of(&name))
        } else {
            None
        },
        None => None,
    };
    let skip = has_token(&toks, &chars_of("skip"));
    let hidden = has_token(&toks, &chars_of("hidden"));
    InfoString { language, validator, skip, hidden }
}

impl InfoString {
    /// Writes the recognised tokens out in their fixed order.
    pub fn canonical(&self) -> (r: String)
        ensures
            r@ == canonical_spec(self@),
    {
        let mut parts: Vec<Vec<char>> = Vec::new();
        let language = chars_of(self.language.as_str());
        if language.len() > 0 {
            parts.push(language);
        }
        if let Some(name) = &self.validator {
            let mut token = chars_of("validator=");
            push_all(&mut token, &chars_of(name.as_str()));
            parts.push(token);
        }
        if self.skip {
            parts.push(chars_of("skip"));
        }
        if self.hidden {
            parts.push(chars_of("hidden"));
        }
        let sep: Vec<char> = vec![' '];
        assert(views(parts@) =~= canonical_tokens(self@));
        assert(sep@ =~= seq![' ']);
        string_of(&join_exec(&parts, &sep))
    }
}

/// Reads the opening line of a fence and returns its language, the validator
/// it names and whether it asks to be skipped.
pub fn parse_info_string(info: &str) -> (r: (String, Option<String>, bool))
    ensures
        r.0@ == parse_info_spec(info@).language,
        opt_view(r.1) == parse_info_spec(info@).validator,
        r.2 == parse_info_spec(info@).skip,
{
    let parsed = parse_fence_info(info);
    (parsed.language, parsed.validator, parsed.skip)
}

/// What a code block's body holds besides the code that is shown.
#[derive(Debug, Clone)]
pub struct ExtractedMarkers {
    /// The text of the setup region.
    pub setup: Option<String>,
    /// The text of the assertion region.
    pub assertions: Option<String>,
    /// The text of the expected-output region.
    pub expect: Option<String>,
    /// The body without the three regions, trimmed.
    pub visible_content: String,
}

pub struct MarkersView {
    pub setup: Option<Seq<char>>,
    pub assertions: Option<Seq<char>>,
    pub expect: Option<Seq<char>>,
    pub visible_content: Seq<char>,
}

impl View for ExtractedMarkers {
    type V = MarkersView;

    open spec fn view(&self) -> MarkersView {
        MarkersView {
            setup: opt_view(self.setup),
            assertions: opt_view(self.assertions),
            expect: opt_view(self.expect),
            visible_content: self.visible_content@,
        }
    }
}

impl Default for ExtractedMarkers {
    fn default() -> (r: Self)
        ensures
            r@ == (MarkersView {
                setup: None,
                assertions: None,
                expect: None,
                visible_content: Seq::empty(),
            }),
    {
        ExtractedMarkers { setup: None, assertions: None, expect: None, visible_content: String::new() }
    }
}

/// A fenced code block as its info string and body give it.
#[derive(Debug, Clone)]
pub struct CodeBlock {
    pub language: String,
    pub validator: Option<String>,
    pub skip: bool,
    pub content: String,
    pub setup: Option<String>,
    pub assertions: Option<String>,
    pub expect: Option<String>,
}

/// The first region of `s` that `marker` opens, as a split of the text:
/// what stands before the cut, the region's trimmed inner text, and what
/// stands behind the cut. `None` where `s` has no such region.
pub open spec fn marker_block(s: Seq<char>, marker: Seq<char>) -> Option<
    (Seq<char>, Seq<char>, Seq<char>),
> {
    match first_region(s, marker) {
        None => None,
        Some(region) => Some(
            (
                s.take(region.cut_from),
                trim(s.subrange(region.inner_start, region.close)),
                s.skip(region.cut_to),
            ),
        ),
    }
}

/// The inner text of the first region that `marker` opens.
pub open spec fn marker_inner(s: Seq<char>, marker: Seq<char>) -> Option<Seq<char>> {
    match marker_block(s, marker) {
        Some((_, inner, _)) => Some(inner),
        None => None,
    }
}

/// `s` without the first region that `marker` opens; `s` itself where there
/// is none.
pub open spec fn marker_rest(s: Seq<char>, marker: Seq<char>) -> Seq<char> {
    match marker_block(s, marker) {
        Some((before, _, after)) => before + after,
        None => s,
    }
}

/// The markers of a body: the setup region is taken out first, then the
/// assertion region, then the expectation region; what is left, trimmed, is
/// the visible content.
pub open spec fn extract_markers_spec(s: Seq<char>) -> MarkersView {
    let r1 = marker_rest(s, "<!--SETUP"@);
    let r2 = marker_rest(r1, "<!--ASSERT"@);
    let r3 = marker_rest(r2, "<!--EXPECT"@);
    MarkersView {
        setup: marker_inner(s, "<!--SETUP"@),
        assertions: marker_inner(r1, "<!--ASSERT"@),
        expect: marker_inner(r2, "<!--EXPECT"@),
        visible_content: trim(r3),
    }
}

/// A line without the hidden-line prefix it may begin with.
pub open spec fn strip_at(line: Seq<char>) -> Seq<char> {
    if starts_with(line, at_prefix()) {
        line.skip(at_prefix().len() as int)
    } else {
        line
    }
}

/// The lines of `s`, each without a leading `@@`, joined by line feeds.
pub open spec fn strip_double_at_prefix_spec(s: Seq<char>) -> Seq<char> {
    join(lines(s).map_values(|l: Seq<char>| strip_at(l)), line_feed())
}

pub fn extract_marker_block_chars(content: &Vec<char>, marker: &Vec<char>) -> (r: Option<
    (Vec<char>, Vec<char>, Vec<char>),
>)
    ensures
        match r {
            Some((before, inner, after)) => marker_block(content@, marker@) == Some(
                (before@, inner@, after@),
            ),
            None => marker_block(content@, marker@) is None,
        },
{
    match first_region_exec(content, marker) {
        None => None,
        Some(region) => {
            let before = slice_of(content, 0, region.cut_from);
            let raw = slice_of(content, region.inner_start, region.close);
            let inner = trim_chars(&raw);
            let after = slice_of(content, region.cut_to, content.len());
            Some((before, inner, after))
        },
    }
}

/// Finds the first region that `marker` opens and splits the text around it.
pub fn extract_marker_block(content: &str, marker: &str) -> (r: Option<(String, String, String)>)
    ensures
        match r {
            Some((before, inner, after)) => marker_block(content@, marker@) == Some(
                (before@, inner@, after@),
            ),
            None => marker_block(content@, marker@) is None,
        },
{
    match extract_marker_block_chars(&chars_of(content), &chars_of(marker)) {
        Some((before, inner, after)) => Some(
            (string_of(&before), string_of(&inner), string_of(&after)),
        ),
        None => None,
    }
}

fn take_marker(remaining: Vec<char>, marker: &str) -> (r: (Option<String>, Vec<char>))
    ensures
        opt_view(r.0) == marker_inner(remaining@, marker@),
        r.1@ == marker_rest(remaining@, marker@),
{
    match extract_marker_block_chars(&remaining, &chars_of(marker)) {
        Some((before, inner, after)) => {
            let mut rest = before;
            push_all(&mut rest, &after);
            (Some(string_of(&inner)), rest)
        },
        None => (None, remaining),
    }
}

/// Takes the setup, assertion and expectation regions out of a body.
pub fn extract_markers(content: &str) -> (r: ExtractedMarkers)
    ensures
        r@ == extract_markers_spec(content@),
{
    let (setup, r1) = take_marker(chars_of(content), "<!--SETUP");
    let (assertions, r2) = take_marker(r1, "<!--ASSERT");
    let (expect, r3) = take_marker(r2, "<!--EXPECT");
    let visible_content = string_of(&trim_chars(&r3));
    ExtractedMarkers { setup, assertions, expect, visible_content }
}

pub fn strip_double_at_prefix_chars(content: &Vec<char>) -> (r: Vec<char>)
    ensures
        r@ == strip_double_at_prefix_spec(content@),
{
    let all = lines_exec(content);
    let prefix = chars_of("@@");
    let mut out: Vec<Vec<char>> = Vec::new();
    let ghost strip = |l: Seq<char>| strip_at(l);
    let mut i: usize = 0;
    while i < all.len()
        invariant
            i <= all.len(),
            prefix@ == at_prefix(),
            out.len() == i,
            forall|k: int| 0 <= k < i ==> (#[trigger] out@[k])@ == strip_at(all@[k]@),
        decreases all.len() - i,
    {
        let line = if matches_at_exec(&all[i], &prefix, 0) {
            slice_of(&all[i], prefix.len(), all[i].len())
        } else {
            slice_of(&all[i], 0, all[i].len())
        };
        assert(line@ == strip_at(all@[i as int]@));
        out.push(line);
        i += 1;
    }
    assert(views(out@) =~= views(all@).map_values(strip));
    let sep: Vec<char> = vec!['\n'];
    assert(sep@ == line_feed());
    join_exec(&out, &sep)
}

/// Strips a leading `@@` from every line and keeps the line: the text that is
/// validated.
pub fn strip_double_at_prefix(content: &str) -> (r: String)
    ensures
        r@ == strip_double_at_prefix_spec(content@),
{
    string_of(&strip_double_at_prefix_chars(&chars_of(content)))
}

impl ExtractedMarkers {
    /// The text that is validated: the visible content with the `@@` prefix
    /// removed from the lines that have it.
    pub fn validation_content(&self) -> (r: String)
        ensures
            r@ == strip_double_at_prefix_spec(self.visible_content@),
    {
        strip_double_at_prefix(&self.visible_content)
    }
}

} // verus!
