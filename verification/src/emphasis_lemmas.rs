//! What holds of bold emphasis: how markers count across a concatenation, what
//! the parts of a split look like, and what the output holds for an even and
//! for an odd number of markers.

use vstd::prelude::*;
use crate::emphasis::{
    emphasized, first_marker, lemma_first_marker, lemma_first_marker_is, lemma_part_count,
    marker_at, marker_count, separator, split_markers, weave,
};

verus! {

/// Whether `s` holds no `*`.
pub open spec fn star_free(s: Seq<char>) -> bool {
    forall|i: int| 0 <= i < s.len() ==> s[i] != '*'
}

/// Whether `s` holds no marker.
pub open spec fn no_marker(s: Seq<char>) -> bool {
    first_marker(s) == s.len()
}

/// Whether no marker can form across the place where `a` ends and `b` begins.
pub open spec fn joins_cleanly(a: Seq<char>, b: Seq<char>) -> bool {
    a.len() == 0 || b.len() == 0 || a.last() != '*' || b[0] != '*'
}

/// Whether `s` ends with a `*`.
pub open spec fn ends_with_star(s: Seq<char>) -> bool {
    s.len() > 0 && s.last() == '*'
}

/// A text holds no marker exactly when its marker count is zero.
pub proof fn lemma_no_marker_count(s: Seq<char>)
    ensures
        no_marker(s) <==> marker_count(s) == 0,
{
    lemma_first_marker(s);
}

/// A text without `*` holds no marker.
pub proof fn lemma_star_free(s: Seq<char>)
    requires
        star_free(s),
    ensures
        no_marker(s),
        marker_count(s) == 0,
{
    lemma_first_marker_is(s, s.len() as int);
}

/// The first marker of `a` is the first marker of `a + b`.
pub proof fn lemma_first_marker_left(a: Seq<char>, b: Seq<char>)
    requires
        !no_marker(a),
    ensures
        first_marker(a + b) == first_marker(a),
{
    lemma_first_marker(a);
    let i = first_marker(a);
    assert(marker_at(a, i));
    assert forall|j: int| 0 <= j < i implies !marker_at(a + b, j) by {
        assert(!marker_at(a, j));
    }
    lemma_first_marker_is(a + b, i);
}

/// Where `a` holds no marker and none forms across the joint, the first
/// marker of `a + b` is that of `b`.
pub proof fn lemma_first_marker_right(a: Seq<char>, b: Seq<char>)
    requires
        no_marker(a),
        joins_cleanly(a, b),
    ensures
        first_marker(a + b) == a.len() + first_marker(b),
{
    lemma_first_marker(a);
    lemma_first_marker(b);
    let n = a.len() as int;
    let i = first_marker(b);
    let s = a + b;
    if i < b.len() {
        assert(marker_at(b, i));
        assert(s[n + i] == b[i] && s[n + i + 1] == b[i + 1]);
    }
    assert forall|j: int| 0 <= j < n + i implies !marker_at(s, j) by {
        if j + 1 < n {
            assert(!marker_at(a, j));
        } else if j + 1 == n {
            if b.len() > 0 {
                assert(s[j] == a.last() && s[j + 1] == b[0]);
            }
        } else {
            assert(!marker_at(b, j - n));
            if j + 1 < s.len() {
                assert(s[j] == b[j - n] && s[j + 1] == b[j - n + 1]);
            }
        }
    }
    lemma_first_marker_is(s, n + i);
}

/// Where no marker forms across the joint, the markers of `a + b` are those of
/// `a` and those of `b`.
pub proof fn lemma_count_concat(a: Seq<char>, b: Seq<char>)
    requires
        joins_cleanly(a, b),
    ensures
        marker_count(a + b) == marker_count(a) + marker_count(b),
    decreases a.len(),
{
    lemma_first_marker(a);
    lemma_first_marker(b);
    let i = first_marker(a);
    if i < a.len() {
        lemma_first_marker_left(a, b);
        assert(marker_at(a, i));
        assert((a + b).skip(i + 2) == a.skip(i + 2) + b);
        if a.skip(i + 2).len() > 0 {
            assert(a.skip(i + 2).last() == a.last());
        }
        lemma_count_concat(a.skip(i + 2), b);
    } else {
        lemma_first_marker_right(a, b);
        let j = first_marker(b);
        if j < b.len() {
            assert(marker_at(b, j));
            assert((a + b).skip(a.len() + j + 2) == b.skip(j + 2));
        }
    }
}

/// A piece of text without `*` between `a` and `b` keeps their markers apart.
pub proof fn lemma_count_around(a: Seq<char>, m: Seq<char>, b: Seq<char>)
    requires
        m.len() > 0,
        star_free(m),
    ensures
        marker_count(a + m + b) == marker_count(a) + marker_count(b),
        marker_count(a + m) == marker_count(a),
        marker_count(m + b) == marker_count(b),
{
    lemma_star_free(m);
    assert(m[0] != '*');
    assert(m.last() != '*');
    lemma_count_concat(a, m);
    assert((a + m).last() == m.last());
    lemma_count_concat(a + m, b);
    lemma_count_concat(m, b);
}

/// No part of a split holds a marker, and no part but the last ends with `*`.
pub proof fn lemma_parts(s: Seq<char>)
    ensures
        forall|k: int|
            0 <= k < split_markers(s).len() ==> no_marker(#[trigger] split_markers(s)[k]),
        forall|k: int|
            0 <= k < split_markers(s).len() - 1 ==> !ends_with_star(#[trigger] split_markers(s)[k]),
    decreases s.len(),
{
    lemma_first_marker(s);
    let i = first_marker(s);
    let parts = split_markers(s);
    if 0 <= i && i + 2 <= s.len() {
        let head = s.take(i);
        let rest = split_markers(s.skip(i + 2));
        lemma_parts(s.skip(i + 2));
        assert(marker_at(s, i));
        assert forall|j: int| 0 <= j < i implies !marker_at(head, j) by {
            assert(!marker_at(s, j));
        }
        lemma_first_marker_is(head, i);
        if i > 0 && head.last() == '*' {
            assert(marker_at(s, i - 1));
        }
        assert forall|k: int| 0 <= k < parts.len() implies no_marker(#[trigger] parts[k]) by {
            if k > 0 {
                assert(parts[k] == rest[k - 1]);
            }
        }
        assert forall|k: int| 0 <= k < parts.len() - 1 implies !ends_with_star(
            #[trigger] parts[k],
        ) by {
            if k > 0 {
                assert(parts[k] == rest[k - 1]);
            }
        }
    }
}

/// The first `m` bold spans made of `parts`: part 0, `<b>`, part 1, `</b>`,
/// part 2, `<b>`, and so on up to part `2m - 1` and the `</b>` after it.
pub open spec fn bold_pairs(parts: Seq<Seq<char>>, m: int) -> Seq<char>
    decreases m,
{
    if m <= 0 {
        Seq::empty()
    } else {
        bold_pairs(parts, m - 1) + parts[2 * m - 2] + "<b>"@ + parts[2 * m - 1] + "</b>"@
    }
}

/// The output starts with as many bold spans as the markers pair up to.
pub proof fn lemma_weave_pairs(parts: Seq<Seq<char>>, m: int)
    requires
        parts.len() > 0,
        0 <= m,
        2 * m <= (parts.len() - 1) - (parts.len() - 1) % 2,
    ensures
        weave(parts, 0) == bold_pairs(parts, m) + weave(parts, 2 * m),
    decreases m,
{
    if m > 0 {
        let n = parts.len() - 1;
        lemma_weave_pairs(parts, m - 1);
        assert(separator(2 * m - 2, n) == "<b>"@);
        assert(separator(2 * m - 1, n) == "</b>"@);
        assert(weave(parts, 2 * m - 2) == parts[2 * m - 2] + "<b>"@ + weave(parts, 2 * m - 1));
        assert(weave(parts, 2 * m - 1) == parts[2 * m - 1] + "</b>"@ + weave(parts, 2 * m));
        assert(weave(parts, 0) =~= bold_pairs(parts, m) + weave(parts, 2 * m));
    } else {
        assert(weave(parts, 0) =~= bold_pairs(parts, m) + weave(parts, 0));
    }
}

/// The bold spans made of parts that hold no marker hold none either, and do
/// not end with `*`.
pub proof fn lemma_pairs_plain(parts: Seq<Seq<char>>, m: int)
    requires
        0 <= m,
        2 * m <= parts.len(),
        forall|k: int| 0 <= k < parts.len() ==> no_marker(#[trigger] parts[k]),
    ensures
        marker_count(bold_pairs(parts, m)) == 0,
        !ends_with_star(bold_pairs(parts, m)),
    decreases m,
{
    reveal_strlit("<b>");
    reveal_strlit("</b>");
    if m > 0 {
        lemma_pairs_plain(parts, m - 1);
        let before = bold_pairs(parts, m - 1);
        let p = parts[2 * m - 2];
        let q = parts[2 * m - 1];
        assert(no_marker(p) && no_marker(q));
        lemma_no_marker_count(p);
        lemma_no_marker_count(q);
        lemma_count_concat(before, p);
        lemma_count_around(before + p, "<b>"@, q);
        lemma_count_around(before + p + "<b>"@ + q, "</b>"@, Seq::empty());
        assert(before + p + "<b>"@ + q + "</b>"@ + Seq::<char>::empty() == bold_pairs(parts, m));
    } else {
        lemma_star_free(Seq::empty());
    }
}

/// A text with at most one marker comes out of the emphasis pass as it went in.
pub proof fn lemma_emphasized_unchanged(s: Seq<char>)
    requires
        marker_count(s) <= 1,
    ensures
        emphasized(s) == s,
{
    reveal_strlit("**");
    lemma_first_marker(s);
    let i = first_marker(s);
    if 0 <= i && i + 2 <= s.len() {
        let rest = s.skip(i + 2);
        lemma_no_marker_count(rest);
        let parts = split_markers(s);
        assert(split_markers(rest) == seq![rest]);
        assert(parts == seq![s.take(i), rest]);
        assert(marker_at(s, i));
        assert(separator(0, 1) == "**"@);
        assert(weave(parts, 1) == rest);
        assert(weave(parts, 0) == s.take(i) + "**"@ + rest);
        assert(s.take(i) + "**"@ + rest =~= s);
    } else {
        assert(split_markers(s) == seq![s]);
    }
}

/// With an even number `n` of markers, the output is `n / 2` bold spans, one
/// after the other, and then the last part; it holds no marker.
pub proof fn lemma_balanced(s: Seq<char>)
    requires
        marker_count(s) % 2 == 0,
    ensures
        split_markers(s).len() == marker_count(s) + 1,
        emphasized(s) == bold_pairs(split_markers(s), marker_count(s) as int / 2)
            + split_markers(s)[marker_count(s) as int],
        marker_count(emphasized(s)) == 0,
{
    let parts = split_markers(s);
    let n = marker_count(s) as int;
    lemma_part_count(s);
    lemma_parts(s);
    lemma_weave_pairs(parts, n / 2);
    lemma_pairs_plain(parts, n / 2);
    assert(weave(parts, n) == parts[n]);
    assert(no_marker(parts[n]));
    lemma_no_marker_count(parts[n]);
    lemma_count_concat(bold_pairs(parts, n / 2), parts[n]);
}

/// With an odd number of markers, the output is the bold spans that the
/// markers before the last pair up to, then the part before the last marker,
/// the last marker as it was written, and the last part. That marker is the
/// only one in the output.
pub proof fn lemma_unbalanced(s: Seq<char>)
    requires
        marker_count(s) % 2 == 1,
    ensures
        split_markers(s).len() == marker_count(s) + 1,
        emphasized(s) == bold_pairs(split_markers(s), (marker_count(s) - 1) / 2) + split_markers(
            s,
        )[marker_count(s) - 1] + "**"@ + split_markers(s)[marker_count(s) as int],
        marker_count(emphasized(s)) == 1,
        first_marker(emphasized(s)) == (bold_pairs(split_markers(s), (marker_count(s) - 1) / 2)
            + split_markers(s)[marker_count(s) - 1]).len(),
{
    reveal_strlit("**");
    let parts = split_markers(s);
    let n = marker_count(s) as int;
    let m = (n - 1) / 2;
    lemma_part_count(s);
    lemma_parts(s);
    lemma_weave_pairs(parts, m);
    lemma_pairs_plain(parts, m);
    assert(separator(n - 1, n) == "**"@);
    assert(weave(parts, n) == parts[n]);
    assert(weave(parts, n - 1) == parts[n - 1] + "**"@ + parts[n]);
    let head = bold_pairs(parts, m) + parts[n - 1];
    let tail = "**"@ + parts[n];
    assert(emphasized(s) =~= head + "**"@ + parts[n]);
    assert(emphasized(s) =~= head + tail);
    assert(no_marker(parts[n - 1]) && no_marker(parts[n]));
    assert(!ends_with_star(parts[n - 1]));
    lemma_no_marker_count(parts[n - 1]);
    lemma_no_marker_count(parts[n]);
    lemma_count_concat(bold_pairs(parts, m), parts[n - 1]);
    lemma_no_marker_count(head);
    assert(marker_at(tail, 0));
    lemma_first_marker_is(tail, 0);
    assert(tail.skip(2) == parts[n]);
    assert(marker_count(tail) == 1);
    lemma_count_concat(head, tail);
    lemma_first_marker_right(head, tail);
}

/// The output of the emphasis pass holds no marker where the markers pair
/// up, and one where they do not.
pub proof fn lemma_emphasized_count(s: Seq<char>)
    ensures
        marker_count(emphasized(s)) == marker_count(s) % 2,
{
    if marker_count(s) % 2 == 0 {
        lemma_balanced(s);
    } else {
        lemma_unbalanced(s);
    }
}

/// The parts with a marker between each two of them.
pub open spec fn joined(parts: Seq<Seq<char>>) -> Seq<char>
    decreases parts.len(),
{
    if parts.len() == 0 {
        Seq::empty()
    } else if parts.len() == 1 {
        parts[0]
    } else {
        parts[0] + "**"@ + joined(parts.skip(1))
    }
}

/// The parts of a text, with the markers put back between them, are the text.
pub proof fn lemma_split_joined(s: Seq<char>)
    ensures
        joined(split_markers(s)) == s,
    decreases s.len(),
{
    reveal_strlit("**");
    lemma_first_marker(s);
    let i = first_marker(s);
    if 0 <= i && i + 2 <= s.len() {
        let rest = s.skip(i + 2);
        let parts = split_markers(s);
        lemma_split_joined(rest);
        lemma_part_count(rest);
        assert(parts.skip(1) == split_markers(rest));
        assert(marker_at(s, i));
        assert(s.take(i) + "**"@ + rest =~= s);
    }
}

/// What the emphasis pass makes of the parts from part `k` on is no shorter
/// than those parts with their markers.
proof fn lemma_weave_len(parts: Seq<Seq<char>>, k: int)
    requires
        0 <= k < parts.len(),
    ensures
        weave(parts, k).len() >= joined(parts.skip(k)).len(),
    decreases parts.len() - k,
{
    reveal_strlit("**");
    reveal_strlit("<b>");
    reveal_strlit("</b>");
    if k < parts.len() - 1 {
        lemma_weave_len(parts, k + 1);
        assert(parts.skip(k).skip(1) == parts.skip(k + 1));
    }
}

/// The emphasis pass never shortens a text, and lengthens one that holds two
/// markers or more.
pub proof fn lemma_emphasized_len(s: Seq<char>)
    ensures
        emphasized(s).len() >= s.len(),
        marker_count(s) >= 2 ==> emphasized(s).len() > s.len(),
{
    reveal_strlit("**");
    reveal_strlit("<b>");
    let parts = split_markers(s);
    lemma_part_count(s);
    lemma_split_joined(s);
    lemma_weave_len(parts, 0);
    assert(parts.skip(0) == parts);
    if marker_count(s) >= 2 {
        lemma_weave_len(parts, 1);
        assert(separator(0, parts.len() - 1) == "<b>"@);
    }
}

/// The emphasis pass leaves a text as it is exactly when the text holds at
/// most one marker.
pub proof fn lemma_emphasized_fixed(s: Seq<char>)
    ensures
        emphasized(s) == s <==> marker_count(s) <= 1,
{
    lemma_emphasized_len(s);
    if marker_count(s) <= 1 {
        lemma_emphasized_unchanged(s);
    }
}

} // verus!
