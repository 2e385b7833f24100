//! The inline formatter: bold emphasis first, then math spans, over the text
//! that the emphasis pass gives.

use vstd::prelude::*;
use crate::emphasis::{emphasize, emphasized, marker_count};
use crate::emphasis_lemmas::{
    lemma_emphasized_count, lemma_emphasized_fixed, lemma_emphasized_len,
    lemma_emphasized_unchanged,
};
use crate::math::{has_math_span, render_math, with_math};
use crate::math_lemmas::{
    lemma_math_idempotent, lemma_math_keeps_markers, lemma_math_len, lemma_math_unchanged,
};
use crate::text::{chars_of, string_of};

verus! {

/// A line's text with its inline markup resolved.
pub open spec fn formatted(s: Seq<char>) -> Seq<char> {
    with_math(emphasized(s))
}

/// Resolves the inline markup of `text`.
pub fn format_inline(text: &[char]) -> (out: Vec<char>)
    ensures
        out@ == formatted(text@),
        formatted(out@) == out@,
{
    let bold = emphasize(text);
    proof {
        lemma_formatted_idempotent(text@);
    }
    render_math(bold.as_slice())
}

/// Resolves the inline markup of `text`: `**` pairs become bold tags, `$` pairs
/// become math spans, and a marker without a partner stays as it is.
pub fn fmt(text: &str) -> (out: String)
    ensures
        out@ == formatted(text@),
        formatted(out@) == out@,
{
    let chars = chars_of(text);
    let out = format_inline(chars.as_slice());
    string_of(out.as_slice())
}

/// Formatting a text that was already formatted changes nothing: the one
/// marker and the one `$` that may be left in it have no partner.
pub proof fn lemma_formatted_idempotent(s: Seq<char>)
    ensures
        formatted(formatted(s)) == formatted(s),
{
    let bold = emphasized(s);
    let out = with_math(bold);
    lemma_emphasized_count(s);
    lemma_math_keeps_markers(bold);
    lemma_emphasized_unchanged(out);
    lemma_math_idempotent(bold);
}

/// What formatting leaves in a text: one marker where the markers did not
/// pair up and none where they did, and no closed math span.
pub proof fn lemma_formatted_rest(s: Seq<char>)
    ensures
        marker_count(formatted(s)) == marker_count(s) % 2,
        !has_math_span(formatted(s)),
{
    lemma_emphasized_count(s);
    lemma_math_keeps_markers(emphasized(s));
    lemma_math_idempotent(emphasized(s));
}

/// The texts that formatting leaves as they are: those with at most one
/// marker and no closed math span. Every other text comes out changed.
pub proof fn lemma_formatted_fixed(s: Seq<char>)
    ensures
        formatted(s) == s <==> marker_count(s) <= 1 && !has_math_span(s),
{
    lemma_emphasized_len(s);
    lemma_emphasized_fixed(s);
    lemma_math_len(emphasized(s));
    lemma_math_unchanged(emphasized(s));
}

} // verus!
