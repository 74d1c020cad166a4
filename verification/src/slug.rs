//! Anchor ids for headings.

use crate::text::{lowercase_of, trim, trimmed};
use vstd::prelude::*;

verus! {

/// The regular expression for what an anchor id may not hold: a run of
/// characters other than `a` to `z` and the hyphen.
pub const STRIP_PATTERN: &'static str = "[^a-z-]*";

/// The characters an anchor id is made of.
pub open spec fn is_slug_char(c: char) -> bool {
    ('a' <= c && c <= 'z') || c == '-'
}

/// `s` with each space turned into a hyphen.
pub open spec fn hyphenated(s: Seq<char>) -> Seq<char> {
    s.map_values(|c: char| if c == ' ' { '-' } else { c })
}

/// `s` without the characters that an anchor id may not hold.
pub open spec fn stripped(s: Seq<char>) -> Seq<char> {
    s.filter(|c: char| is_slug_char(c))
}

/// The anchor id of lowercase text: spaces become hyphens, then every
/// character other than `a` to `z` and the hyphen is dropped.
pub open spec fn slug_of_lowercase(lowered: Seq<char>) -> Seq<char> {
    stripped(hyphenated(lowered))
}

/// The anchor id of heading text: the text is trimmed and lowercased, its
/// spaces become hyphens, and only `a` to `z` and hyphens are kept.
pub open spec fn slug_of(text: Seq<char>) -> Seq<char> {
    slug_of_lowercase(lowercase_of(trimmed(text)))
}

/// Compiles `pattern` with `regex::Regex::new` and calls `Regex::replace_all`
/// on `text` with `replacement`. Stated only for `STRIP_PATTERN` and the
/// empty replacement: that pattern compiles, its matches are the maximal
/// runs of characters outside `a` to `z` and the hyphen, and replacing all of
/// them by nothing leaves the other characters in their order.
#[verifier::external_body]
fn replace_all_matches(pattern: &str, text: &str, replacement: &str) -> (out: String)
    requires
        pattern@ == STRIP_PATTERN@,
        replacement@.len() == 0,
    ensures
        out@ == stripped(text@),
{
    regex::Regex::new(pattern).unwrap().replace_all(text, replacement).into_owned()
}

/// Turns each space into a hyphen.
pub fn hyphenate(text: &str) -> (out: String)
    ensures
        out@ == hyphenated(text@),
{
    let mut out = String::new();
    for c in it: text.chars()
        invariant
            it.seq() == text@,
            out@ == hyphenated(text@.take(it.index())),
    {
        assert(text@.take(it.index() + 1) == text@.take(it.index()).push(c));
        if c == ' ' {
            out.push('-');
        } else {
            out.push(c);
        }
    }
    assert(text@.take(text@.len() as int) == text@);
    out
}

/// The anchor id of text that is already trimmed and lowercase.
pub fn slug_from_lowercase(lowered: &str) -> (out: String)
    ensures
        out@ == slug_of_lowercase(lowered@),
        forall|i: int| 0 <= i < out@.len() ==> is_slug_char(#[trigger] out@[i]),
{
    let dashed = hyphenate(lowered);
    proof {
        reveal_strlit("");
    }
    let out = replace_all_matches(STRIP_PATTERN, dashed.as_str(), "");
    assert forall|i: int| 0 <= i < out@.len() implies is_slug_char(#[trigger] out@[i]) by {
        dashed@.lemma_filter_pred(|c: char| is_slug_char(c), i);
    }
    out
}

/// The anchor id of heading text. Equal texts give equal ids; nothing makes
/// the ids of one document differ from each other.
pub fn slug(text: &str) -> (out: String)
    ensures
        out@ == slug_of(text@),
        forall|i: int| 0 <= i < out@.len() ==> is_slug_char(#[trigger] out@[i]),
{
    let trimmed_text = trim(text);
    let lowered = trimmed_text.as_str().to_lowercase();
    slug_from_lowercase(lowered.as_str())
}

} // verus!
