//! What holds of math spans: the pass leaves text without a closed span alone,
//! never shortens a text, changes nothing when run again, and neither makes
//! nor breaks an emphasis marker.

use vstd::prelude::*;
use crate::emphasis::marker_count;
use crate::emphasis_lemmas::{lemma_count_around, star_free};
use crate::math::{has_math_span, with_math};
use crate::text::{first_index, lemma_first_index, lemma_first_index_is};

verus! {

/// Whether `s` holds no `$`.
pub open spec fn dollar_free(s: Seq<char>) -> bool {
    first_index(s, '$') == s.len()
}

/// The first `$` of `a + b`, where `a` holds none, is the first `$` of `b`.
pub proof fn lemma_first_dollar_right(a: Seq<char>, b: Seq<char>)
    requires
        dollar_free(a),
    ensures
        first_index(a + b, '$') == a.len() + first_index(b, '$'),
{
    lemma_first_index(a, '$');
    lemma_first_index(b, '$');
    let n = a.len() as int;
    let i = first_index(b, '$');
    let s = a + b;
    assert forall|j: int| 0 <= j < n + i implies s[j] != '$' by {
        if j < n {
            assert(s[j] == a[j]);
        } else {
            assert(s[j] == b[j - n]);
        }
    }
    if i < b.len() {
        assert(s[n + i] == b[i]);
    }
    lemma_first_index_is(s, '$', n + i);
}

/// Text without `$` in front of `b` passes through in front of what the math
/// pass makes of `b`.
pub proof fn lemma_math_after_plain(a: Seq<char>, b: Seq<char>)
    requires
        dollar_free(a),
    ensures
        has_math_span(a + b) == has_math_span(b),
        with_math(a + b) == a + with_math(b),
{
    lemma_first_dollar_right(a, b);
    lemma_first_index(b, '$');
    let n = a.len() as int;
    let i = first_index(b, '$');
    let s = a + b;
    if i < b.len() {
        assert(s.skip(n + i + 1) == b.skip(i + 1));
        let rest = b.skip(i + 1);
        let j = first_index(rest, '$');
        lemma_first_index(rest, '$');
        if j < rest.len() {
            assert(s.take(n + i) == a + b.take(i));
            assert(with_math(s) =~= a + with_math(b));
        }
    }
}

/// The four pieces that a text with a closed math span is made of: what
/// stands before the opening `$`, the span's text, and what follows the
/// closing `$`.
pub proof fn lemma_span_pieces(s: Seq<char>)
    requires
        has_math_span(s),
    ensures
        ({
            let i = first_index(s, '$');
            let rest = s.skip(i + 1);
            let j = first_index(rest, '$');
            &&& 0 <= i < s.len()
            &&& 0 <= j < rest.len()
            &&& dollar_free(s.take(i))
            &&& dollar_free(rest.take(j))
            &&& s == s.take(i) + seq!['$'] + rest.take(j) + seq!['$'] + rest.skip(j + 1)
            &&& with_math(s) == s.take(i) + "\\("@ + rest.take(j) + "\\)"@ + with_math(
                rest.skip(j + 1),
            )
        }),
{
    let i = first_index(s, '$');
    let rest = s.skip(i + 1);
    let j = first_index(rest, '$');
    lemma_first_index(s, '$');
    lemma_first_index(rest, '$');
    lemma_first_index_is(s.take(i), '$', i);
    lemma_first_index_is(rest.take(j), '$', j);
    assert(s =~= s.take(i) + seq!['$'] + rest.take(j) + seq!['$'] + rest.skip(j + 1));
}

/// The math pass never shortens a text, and lengthens one that holds a closed span.
pub proof fn lemma_math_len(s: Seq<char>)
    ensures
        with_math(s).len() >= s.len(),
        has_math_span(s) ==> with_math(s).len() > s.len(),
    decreases s.len(),
{
    reveal_strlit("\\(");
    reveal_strlit("\\)");
    if has_math_span(s) {
        lemma_span_pieces(s);
        let i = first_index(s, '$');
        let rest = s.skip(i + 1);
        let j = first_index(rest, '$');
        lemma_math_len(rest.skip(j + 1));
    }
}

/// The math pass leaves a text as it is exactly when the text holds no closed span.
pub proof fn lemma_math_unchanged(s: Seq<char>)
    ensures
        with_math(s) == s <==> !has_math_span(s),
{
    lemma_math_len(s);
}

/// Running the math pass on its own output changes nothing.
pub proof fn lemma_math_idempotent(s: Seq<char>)
    ensures
        with_math(with_math(s)) == with_math(s),
        !has_math_span(with_math(s)),
    decreases s.len(),
{
    reveal_strlit("\\(");
    reveal_strlit("\\)");
    if has_math_span(s) {
        lemma_span_pieces(s);
        let i = first_index(s, '$');
        let rest = s.skip(i + 1);
        let j = first_index(rest, '$');
        let tail = rest.skip(j + 1);
        let front = s.take(i) + "\\("@ + rest.take(j) + "\\)"@;
        lemma_math_idempotent(tail);
        lemma_first_index(s.take(i), '$');
        lemma_first_index(rest.take(j), '$');
        assert forall|k: int| 0 <= k < front.len() implies front[k] != '$' by {
            if k < i {
                assert(front[k] == s.take(i)[k]);
            } else if k < i + 2 {
                assert(front[k] == "\\("@[k - i]);
            } else if k < i + 2 + j {
                assert(front[k] == rest.take(j)[k - i - 2]);
            } else {
                assert(front[k] == "\\)"@[k - i - 2 - j]);
            }
        }
        lemma_first_index_is(front, '$', front.len() as int);
        lemma_math_after_plain(front, with_math(tail));
    } else {
        lemma_math_unchanged(s);
    }
}

/// The math pass neither makes nor breaks an emphasis marker.
pub proof fn lemma_math_keeps_markers(s: Seq<char>)
    ensures
        marker_count(with_math(s)) == marker_count(s),
    decreases s.len(),
{
    reveal_strlit("\\(");
    reveal_strlit("\\)");
    if has_math_span(s) {
        lemma_span_pieces(s);
        let i = first_index(s, '$');
        let rest = s.skip(i + 1);
        let j = first_index(rest, '$');
        let before = s.take(i);
        let span = rest.take(j);
        let tail = rest.skip(j + 1);
        let dollar = seq!['$'];
        lemma_math_keeps_markers(tail);
        assert(star_free(dollar));
        assert(star_free("\\("@));
        assert(star_free("\\)"@));
        lemma_count_around(before, dollar, span);
        lemma_count_around(before + dollar + span, dollar, tail);
        lemma_count_around(before, "\\("@, span);
        lemma_count_around(before + "\\("@ + span, "\\)"@, with_math(tail));
    }
}

} // verus!
