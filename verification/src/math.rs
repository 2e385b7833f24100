//! Math spans. The delimiter is `$`. A `$` opens a span that the next `$`
//! closes; the text between them is handed to the math renderer inside `\(`
//! and `\)`. A `$` with no `$` after it stays as it is.

use vstd::prelude::*;
use crate::text::{find_first, first_index, push_all, push_str};

verus! {

/// Whether `s` holds a closed math span: a `$` with another `$` after it.
pub open spec fn has_math_span(s: Seq<char>) -> bool {
    let i = first_index(s, '$');
    0 <= i < s.len() && 0 <= first_index(s.skip(i + 1), '$') < s.len() - i - 1
}

/// `s` with every closed math span put between `\(` and `\)`.
pub open spec fn with_math(s: Seq<char>) -> Seq<char>
    decreases s.len(),
{
    if has_math_span(s) {
        let i = first_index(s, '$');
        let rest = s.skip(i + 1);
        let j = first_index(rest, '$');
        s.take(i) + "\\("@ + rest.take(j) + "\\)"@ + with_math(rest.skip(j + 1))
    } else {
        s
    }
}

/// Puts every closed math span of `text` between `\(` and `\)`.
pub fn render_math(text: &[char]) -> (out: Vec<char>)
    ensures
        out@ == with_math(text@),
{
    let n = text.len();
    let mut out: Vec<char> = Vec::new();
    let mut start: usize = 0;
    assert(text@.skip(0) == text@);
    assert(out@ + with_math(text@) == with_math(text@));
    loop
        invariant_except_break
            n == text.len(),
            start <= n,
            out@ + with_math(text@.skip(start as int)) == with_math(text@),
        ensures
            out@ == with_math(text@),
        decreases n - start,
    {
        let ghost before = out@;
        let tail = vstd::slice::slice_subrange(text, start, n);
        assert(tail@ == text@.skip(start as int));
        let i = find_first(tail, '$');
        if i < tail.len() {
            let rest = vstd::slice::slice_subrange(tail, i + 1, tail.len());
            assert(rest@ == tail@.skip(i + 1));
            let j = find_first(rest, '$');
            if j < rest.len() {
                push_all(&mut out, vstd::slice::slice_subrange(tail, 0, i));
                push_str(&mut out, "\\(");
                push_all(&mut out, vstd::slice::slice_subrange(rest, 0, j));
                push_str(&mut out, "\\)");
                assert(out@ == before + (tail@.take(i as int) + "\\("@ + rest@.take(j as int)
                    + "\\)"@));
                assert(rest@.skip(j + 1) == text@.skip(start + i + 1 + j + 1));
                start = start + i + 1 + j + 1;
                continue ;
            }
        }
        push_all(&mut out, tail);
        break ;
    }
    out
}

} // verus!
