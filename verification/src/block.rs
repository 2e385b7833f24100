//! The block grammar: what kind of block a line is, what it carries, and the
//! HTML fragment that stands for it.

use vstd::prelude::*;
use crate::inline::{format_inline, formatted};
use crate::text::{
    after_prefix, chars_of, find_first, find_last, first_index, last_index, lemma_last_index,
    push_all, push_str, split, split_on, starts_with, string_of, strip_prefix, trim, trimmed,
    views,
};

verus! {

/// What a line of the document is, with the text it carries. The line is
/// taken without the white space around it.
pub enum LineView {
    /// Nothing but white space.
    Blank,
    /// `@title{..}`: the document's title.
    Title(Seq<char>),
    /// `# ..`: a heading of the first level.
    Heading1(Seq<char>),
    /// `## ..`: a heading of the second level.
    Heading2(Seq<char>),
    /// `@note{..}`: a callout.
    Note(Seq<char>),
    /// `@code{..}`: code, kept as written.
    Code(Seq<char>),
    /// `@image{..}`: an image, by its address.
    Image(Seq<char>),
    /// `|..|..`: a table row, by its cells.
    Row(Seq<Seq<char>>),
    /// `- ..`: a list item.
    Item(Seq<char>),
    /// Anything else: a paragraph.
    Paragraph(Seq<char>),
}

/// A classified line, holding slices of the line it was made from.
pub enum Line<'a> {
    Blank,
    Title(&'a [char]),
    Heading1(&'a [char]),
    Heading2(&'a [char]),
    Note(&'a [char]),
    Code(&'a [char]),
    Image(&'a [char]),
    Row(Vec<&'a [char]>),
    Item(&'a [char]),
    Paragraph(&'a [char]),
}

impl<'a> View for Line<'a> {
    type V = LineView;

    open spec fn view(&self) -> LineView {
        match self {
            Line::Blank => LineView::Blank,
            Line::Title(x) => LineView::Title(x@),
            Line::Heading1(x) => LineView::Heading1(x@),
            Line::Heading2(x) => LineView::Heading2(x@),
            Line::Note(x) => LineView::Note(x@),
            Line::Code(x) => LineView::Code(x@),
            Line::Image(x) => LineView::Image(x@),
            Line::Row(cells) => LineView::Row(views(cells@)),
            Line::Item(x) => LineView::Item(x@),
            Line::Paragraph(x) => LineView::Paragraph(x@),
        }
    }
}

/// What a directive `name{payload}` carries: the text strictly between the
/// first `{` and the last `}` after it. Where there is no `{`, or no `}` after
/// it, that is the empty text.
pub open spec fn payload(s: Seq<char>) -> Seq<char> {
    let open = first_index(s, '{');
    if 0 <= open < s.len() {
        let rest = s.skip(open + 1);
        let close = last_index(rest, '}');
        if 0 <= close {
            rest.take(close)
        } else {
            Seq::empty()
        }
    } else {
        Seq::empty()
    }
}

/// The cells among the pieces of a table row: each piece without the white
/// space around it, the empty ones left out.
pub open spec fn cells_of(pieces: Seq<Seq<char>>) -> Seq<Seq<char>>
    decreases pieces.len(),
{
    if pieces.len() == 0 {
        Seq::empty()
    } else {
        let before = cells_of(pieces.drop_last());
        let cell = trim(pieces.last());
        if cell.len() > 0 {
            before.push(cell)
        } else {
            before
        }
    }
}

/// The cells of a table row: the row is split at every `|`.
pub open spec fn cells(t: Seq<char>) -> Seq<Seq<char>> {
    cells_of(split(t, '|'))
}

/// The kind of a line `t` that has no white space around it, and what it
/// carries. The first rule that fits decides.
pub open spec fn line_of(t: Seq<char>) -> LineView {
    if t.len() == 0 {
        LineView::Blank
    } else if starts_with(t, "@title{"@) {
        LineView::Title(payload(t))
    } else if starts_with(t, "# "@) {
        LineView::Heading1(after_prefix(t, "# "@))
    } else if starts_with(t, "## "@) {
        LineView::Heading2(after_prefix(t, "## "@))
    } else if starts_with(t, "@note{"@) {
        LineView::Note(payload(t))
    } else if starts_with(t, "@code{"@) {
        LineView::Code(payload(t))
    } else if starts_with(t, "@image{"@) {
        LineView::Image(payload(t))
    } else if starts_with(t, "|"@) {
        LineView::Row(cells(t))
    } else if starts_with(t, "- "@) {
        LineView::Item(after_prefix(t, "- "@))
    } else {
        LineView::Paragraph(t)
    }
}

/// The cells of a row as table-data elements, each with its inline markup
/// resolved.
pub open spec fn rendered_cells(cells: Seq<Seq<char>>) -> Seq<char>
    decreases cells.len(),
{
    if cells.len() == 0 {
        Seq::empty()
    } else {
        rendered_cells(cells.drop_last()) + "<td>"@ + formatted(cells.last()) + "</td>"@
    }
}

/// The HTML fragment that stands for a line. A blank line and a title have
/// none. Code and the address of an image are kept as written; every other
/// text has its inline markup resolved.
pub open spec fn rendered(line: LineView) -> Seq<char> {
    match line {
        LineView::Blank => Seq::empty(),
        LineView::Title(_) => Seq::empty(),
        LineView::Heading1(x) => "<h1>"@ + formatted(x) + "</h1>"@,
        LineView::Heading2(x) => "<h2>"@ + formatted(x) + "</h2>"@,
        LineView::Note(x) => "<div class='note'>"@ + formatted(x) + "</div>"@,
        LineView::Code(x) => "<pre><code>"@ + x + "</code></pre>"@,
        LineView::Image(x) => "<img src='"@ + x + "' class='nxt-image' alt='NeXt Image'>"@,
        LineView::Row(cells) => "<tr>"@ + rendered_cells(cells) + "</tr>"@,
        LineView::Item(x) => "<li>"@ + formatted(x) + "</li>"@,
        LineView::Paragraph(x) => "<p>"@ + formatted(x) + "</p>"@,
    }
}

/// The payload of a directive, as a slice of it.
pub fn payload_of<'a>(s: &'a [char]) -> (r: &'a [char])
    ensures
        r@ == payload(s@),
{
    let n = s.len();
    let open = find_first(s, '{');
    if open < n {
        let rest = vstd::slice::slice_subrange(s, open + 1, n);
        assert(rest@ == s@.skip(open + 1));
        match find_last(rest, '}') {
            Some(close) => {
                proof {
                    lemma_last_index(rest@, '}');
                }
                return vstd::slice::slice_subrange(rest, 0, close);
            },
            None => {},
        }
    }
    let none = vstd::slice::slice_subrange(s, 0, 0);
    assert(none@ == Seq::<char>::empty());
    none
}

/// The payload of a directive `name{payload}`: the text strictly between the
/// first `{` and the last `}`; empty where the directive is not closed.
pub fn extract(s: &str) -> (r: String)
    ensures
        r@ == payload(s@),
{
    let chars = chars_of(s);
    string_of(payload_of(chars.as_slice()))
}

/// The cells of a table row.
pub fn row_cells<'a>(t: &'a [char]) -> (row: Vec<&'a [char]>)
    ensures
        views(row@) == cells(t@),
{
    let pieces = split_on(t, '|');
    let mut row: Vec<&'a [char]> = Vec::new();
    let mut k: usize = 0;
    assert(views(pieces@).take(0) == Seq::<Seq<char>>::empty());
    while k < pieces.len()
        invariant
            k <= pieces@.len(),
            views(row@) == cells_of(views(pieces@).take(k as int)),
        decreases pieces@.len() - k,
    {
        let cell = trimmed(pieces[k]);
        let ghost before = views(row@);
        assert(views(pieces@).take(k + 1).drop_last() == views(pieces@).take(k as int));
        if cell.len() > 0 {
            row.push(cell);
            assert(views(row@) == before.push(cell@));
        }
        k += 1;
    }
    assert(views(pieces@).take(k as int) == views(pieces@));
    row
}

/// Classifies a line that has no white space around it.
pub fn classify<'a>(t: &'a [char]) -> (line: Line<'a>)
    ensures
        line@ == line_of(t@),
{
    if t.len() == 0 {
        return Line::Blank;
    }
    if strip_prefix(t, "@title{").is_some() {
        return Line::Title(payload_of(t));
    }
    if let Some(rest) = strip_prefix(t, "# ") {
        return Line::Heading1(rest);
    }
    if let Some(rest) = strip_prefix(t, "## ") {
        return Line::Heading2(rest);
    }
    if strip_prefix(t, "@note{").is_some() {
        return Line::Note(payload_of(t));
    }
    if strip_prefix(t, "@code{").is_some() {
        return Line::Code(payload_of(t));
    }
    if strip_prefix(t, "@image{").is_some() {
        return Line::Image(payload_of(t));
    }
    if strip_prefix(t, "|").is_some() {
        return Line::Row(row_cells(t));
    }
    if let Some(rest) = strip_prefix(t, "- ") {
        return Line::Item(rest);
    }
    Line::Paragraph(t)
}

/// Appends `open`, the text with its inline markup resolved, and `close`.
fn push_wrapped(out: &mut Vec<char>, open: &str, text: &[char], close: &str)
    ensures
        final(out)@ == old(out)@ + (open@ + formatted(text@) + close@),
{
    push_str(out, open);
    let inner = format_inline(text);
    push_all(out, inner.as_slice());
    push_str(out, close);
    assert(out@ == old(out)@ + (open@ + formatted(text@) + close@));
}

/// Appends the fragment that stands for `line`.
pub fn render(out: &mut Vec<char>, line: &Line)
    ensures
        final(out)@ == old(out)@ + rendered(line@),
{
    match line {
        Line::Blank => {
            assert(out@ == old(out)@ + Seq::<char>::empty());
        },
        Line::Title(_) => {
            assert(out@ == old(out)@ + Seq::<char>::empty());
        },
        Line::Heading1(x) => push_wrapped(out, "<h1>", x, "</h1>"),
        Line::Heading2(x) => push_wrapped(out, "<h2>", x, "</h2>"),
        Line::Note(x) => push_wrapped(out, "<div class='note'>", x, "</div>"),
        Line::Code(x) => {
            push_str(out, "<pre><code>");
            push_all(out, x);
            push_str(out, "</code></pre>");
            assert(out@ == old(out)@ + ("<pre><code>"@ + x@ + "</code></pre>"@));
        },
        Line::Image(x) => {
            push_str(out, "<img src='");
            push_all(out, x);
            push_str(out, "' class='nxt-image' alt='NeXt Image'>");
            assert(out@ == old(out)@ + ("<img src='"@ + x@
                + "' class='nxt-image' alt='NeXt Image'>"@));
        },
        Line::Row(cells) => {
            push_str(out, "<tr>");
            let mut k: usize = 0;
            assert(views(cells@).take(0) == Seq::<Seq<char>>::empty());
            while k < cells.len()
                invariant
                    k <= cells@.len(),
                    out@ == old(out)@ + ("<tr>"@ + rendered_cells(views(cells@).take(k as int))),
                decreases cells@.len() - k,
            {
                let ghost before = out@;
                assert(views(cells@).take(k + 1).drop_last() == views(cells@).take(k as int));
                push_wrapped(out, "<td>", cells[k], "</td>");
                assert(out@ == old(out)@ + ("<tr>"@ + (rendered_cells(views(cells@).take(k as int))
                    + "<td>"@ + formatted(cells@[k as int]@) + "</td>"@)));
                k += 1;
            }
            assert(views(cells@).take(k as int) == views(cells@));
            push_str(out, "</tr>");
            assert(out@ == old(out)@ + ("<tr>"@ + rendered_cells(views(cells@)) + "</tr>"@));
        },
        Line::Item(x) => push_wrapped(out, "<li>", x, "</li>"),
        Line::Paragraph(x) => push_wrapped(out, "<p>", x, "</p>"),
    }
}

} // verus!
