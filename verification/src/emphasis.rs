//! Bold emphasis. The marker is `**`. A text is split at every marker; the
//! boundaries between the parts become opening and closing tags in turn. With
//! an odd number of markers the last one has no partner and stays as it is.

use vstd::prelude::*;
use crate::text::{push_all, push_str, views};

verus! {

/// Whether a marker `**` starts at position `j` of `s`.
pub open spec fn marker_at(s: Seq<char>, j: int) -> bool {
    0 <= j && j + 1 < s.len() && s[j] == '*' && s[j + 1] == '*'
}

/// The position of the first marker in `s`, or `s.len()` where `s` holds none.
pub open spec fn first_marker(s: Seq<char>) -> int
    decreases s.len(),
{
    if s.len() < 2 {
        s.len() as int
    } else if s[0] == '*' && s[1] == '*' {
        0
    } else {
        1 + first_marker(s.skip(1))
    }
}

/// The parts of `s` between its markers, found from the left: a marker never
/// overlaps the one before it. There is always at least one part.
pub open spec fn split_markers(s: Seq<char>) -> Seq<Seq<char>>
    decreases s.len(),
{
    let i = first_marker(s);
    if 0 <= i && i + 2 <= s.len() {
        seq![s.take(i)] + split_markers(s.skip(i + 2))
    } else {
        seq![s]
    }
}

/// The number of markers in `s`, found from the left.
pub open spec fn marker_count(s: Seq<char>) -> nat
    decreases s.len(),
{
    let i = first_marker(s);
    if 0 <= i && i + 2 <= s.len() {
        1 + marker_count(s.skip(i + 2))
    } else {
        0
    }
}

/// What stands in the output for marker `k` of `n`: with `n` odd the last
/// marker stays literal; the others open a bold span where `k` is even and
/// close it where `k` is odd.
pub open spec fn separator(k: int, n: int) -> Seq<char> {
    if n % 2 == 1 && k == n - 1 {
        "**"@
    } else if k % 2 == 0 {
        "<b>"@
    } else {
        "</b>"@
    }
}

/// The parts from part `k` on, each followed by what stands for the marker
/// after it.
pub open spec fn weave(parts: Seq<Seq<char>>, k: int) -> Seq<char>
    decreases parts.len() - k,
{
    let n = parts.len() - 1;
    if k < 0 || k > n {
        Seq::empty()
    } else if k == n {
        parts[k]
    } else {
        parts[k] + separator(k, n) + weave(parts, k + 1)
    }
}

/// `s` with its markers resolved into bold tags.
pub open spec fn emphasized(s: Seq<char>) -> Seq<char> {
    weave(split_markers(s), 0)
}

/// `first_marker` is a position where a marker starts with none starting
/// before it, or the length where there is none.
pub proof fn lemma_first_marker(s: Seq<char>)
    ensures
        0 <= first_marker(s) <= s.len(),
        first_marker(s) < s.len() ==> marker_at(s, first_marker(s)),
        forall|j: int| 0 <= j < first_marker(s) ==> !marker_at(s, j),
    decreases s.len(),
{
    if s.len() < 2 {
    } else if s[0] == '*' && s[1] == '*' {
    } else {
        let t = s.skip(1);
        lemma_first_marker(t);
        assert forall|j: int| 0 <= j < first_marker(s) implies !marker_at(s, j) by {
            if j > 0 {
                assert(marker_at(t, j - 1) == marker_at(s, j));
            }
        }
        if first_marker(s) < s.len() {
            assert(marker_at(t, first_marker(t)));
        }
    }
}

/// A position where a marker starts, or the length, with no marker starting
/// before it, is `first_marker`.
pub proof fn lemma_first_marker_is(s: Seq<char>, i: int)
    requires
        0 <= i <= s.len(),
        i < s.len() ==> marker_at(s, i),
        forall|j: int| 0 <= j < i ==> !marker_at(s, j),
    ensures
        first_marker(s) == i,
{
    lemma_first_marker(s);
    let f = first_marker(s);
    if f < i {
        assert(marker_at(s, f));
    } else if i < f {
        assert(marker_at(s, i));
    }
}

/// There is one part more than there are markers.
pub proof fn lemma_part_count(s: Seq<char>)
    ensures
        split_markers(s).len() == marker_count(s) + 1,
    decreases s.len(),
{
    let i = first_marker(s);
    lemma_first_marker(s);
    if 0 <= i && i + 2 <= s.len() {
        lemma_part_count(s.skip(i + 2));
    }
}

/// Finds the first marker in `s`; the length of `s` stands for "none".
pub fn find_marker(s: &[char]) -> (i: usize)
    ensures
        i == first_marker(s@),
        i < s.len() ==> i + 2 <= s.len(),
{
    let n = s.len();
    let mut i: usize = 0;
    while n - i > 1 && !(s[i] == '*' && s[i + 1] == '*')
        invariant
            n == s.len(),
            i <= n,
            forall|j: int| 0 <= j < i ==> !marker_at(s@, j),
        decreases n - i,
    {
        i += 1;
    }
    if n - i > 1 {
        proof {
            lemma_first_marker_is(s@, i as int);
        }
        i
    } else {
        proof {
            lemma_first_marker_is(s@, n as int);
        }
        n
    }
}

/// Splits `s` at every marker.
pub fn split_at_markers<'a>(s: &'a [char]) -> (parts: Vec<&'a [char]>)
    ensures
        views(parts@) == split_markers(s@),
        parts@.len() > 0,
{
    let n = s.len();
    let mut parts: Vec<&'a [char]> = Vec::new();
    let mut start: usize = 0;
    assert(s@.skip(0) == s@);
    assert(views(parts@) + split_markers(s@) == split_markers(s@));
    loop
        invariant_except_break
            n == s.len(),
            start <= n,
            views(parts@) + split_markers(s@.skip(start as int)) == split_markers(s@),
        ensures
            views(parts@) == split_markers(s@),
            parts@.len() > 0,
        decreases n - start,
    {
        let rest = vstd::slice::slice_subrange(s, start, n);
        assert(rest@ == s@.skip(start as int));
        let i = find_marker(rest);
        let ghost before = views(parts@);
        if i < rest.len() {
            parts.push(vstd::slice::slice_subrange(rest, 0, i));
            assert(views(parts@) == before + seq![rest@.take(i as int)]);
            assert(rest@.skip(i + 2) == s@.skip(start + i + 2));
            start = start + i + 2;
        } else {
            parts.push(rest);
            assert(views(parts@) == before + seq![rest@]);
            break;
        }
    }
    parts
}

/// Resolves the markers of `text` into bold tags.
pub fn emphasize(text: &[char]) -> (out: Vec<char>)
    ensures
        out@ == emphasized(text@),
{
    let parts = split_at_markers(text);
    let separators = parts.len() - 1;
    let unbalanced = separators % 2 != 0;
    let mut out: Vec<char> = Vec::new();
    let mut k: usize = 0;
    while k < parts.len()
        invariant
            separators == parts@.len() - 1,
            unbalanced == (separators % 2 == 1),
            k <= parts@.len(),
            out@ + weave(views(parts@), k as int) == weave(views(parts@), 0),
        decreases parts@.len() - k,
    {
        let ghost before = out@;
        push_all(&mut out, parts[k]);
        if k < separators {
            if k == separators - 1 && unbalanced {
                push_str(&mut out, "**");
            } else if k % 2 == 0 {
                push_str(&mut out, "<b>");
            } else {
                push_str(&mut out, "</b>");
            }
            assert(out@ == before + (views(parts@)[k as int] + separator(
                k as int,
                separators as int,
            )));
        }
        k += 1;
    }
    out
}

} // verus!
