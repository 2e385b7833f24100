//! The block parser. It reads a document line by line and keeps track of the
//! one list or table that may be open; the body grows by one fragment per
//! line, with the tags that open and close lists and tables in between.

use vstd::prelude::*;
use crate::block::{classify, line_of, payload, render, rendered, Line, LineView};
use crate::text::{
    all_white_space, chars_of, lemma_trim_empty, lines, push_str, split_lines, starts_with,
    string_of, trim, trimmed, vec_of, views,
};

verus! {

/// The container that the lines read so far have left open. A list and a
/// table are never open together.
#[derive(Clone, Copy, Debug, PartialEq, Eq, Structural)]
pub enum Container {
    /// Neither a list nor a table is open.
    Neutral,
    /// A list is open.
    InList,
    /// A table is open.
    InTable,
}

/// What the parser has made of the lines read so far.
pub struct Scan {
    /// The fragments emitted so far, in the order of the lines.
    pub body: Seq<char>,
    /// The title: that of the last title line read, or the default.
    pub title: Seq<char>,
    /// The container that is open.
    pub open: Container,
}

/// The title of a document that sets none.
pub open spec fn default_title() -> Seq<char> {
    "Untitled Document"@
}

/// The tag that opens a container.
pub open spec fn opening(c: Container) -> Seq<char> {
    match c {
        Container::Neutral => Seq::empty(),
        Container::InList => "<ul>"@,
        Container::InTable => "<table class='nxt-table'>"@,
    }
}

/// The tag that closes a container.
pub open spec fn closing(c: Container) -> Seq<char> {
    match c {
        Container::Neutral => Seq::empty(),
        Container::InList => "</ul>"@,
        Container::InTable => "</table>"@,
    }
}

/// The container that a line belongs in: a list item in a list, a table row
/// in a table, every other line in none.
pub open spec fn container_of(line: LineView) -> Container {
    match line {
        LineView::Item(_) => Container::InList,
        LineView::Row(_) => Container::InTable,
        _ => Container::Neutral,
    }
}

/// The state before any line is read.
pub open spec fn start() -> Scan {
    Scan { body: Seq::empty(), title: default_title(), open: Container::Neutral }
}

/// The body once the container `target` is the open one: where another was
/// open, its closing tag and the opening tag of `target` are added.
pub open spec fn entered(st: Scan, target: Container) -> Seq<char> {
    if st.open == target {
        st.body
    } else {
        st.body + closing(st.open) + opening(target)
    }
}

/// The state after one more line, given without the white space around it.
/// Where the line does not belong in the open container, that container is
/// closed and the line's own is opened. Then comes the line's fragment. A
/// title line sets the title.
pub open spec fn step(st: Scan, t: Seq<char>) -> Scan {
    let line = line_of(t);
    Scan {
        body: entered(st, container_of(line)) + rendered(line),
        title: match line {
            LineView::Title(x) => x,
            _ => st.title,
        },
        open: container_of(line),
    }
}

/// The body at the end of the document: a container that is still open is closed.
pub open spec fn ended(st: Scan) -> Seq<char> {
    st.body + closing(st.open)
}

/// The state after the given lines, each taken without the white space around it.
pub open spec fn scan(lines: Seq<Seq<char>>) -> Scan
    decreases lines.len(),
{
    if lines.len() == 0 {
        start()
    } else {
        step(scan(lines.drop_last()), trim(lines.last()))
    }
}

/// The body of the document `text`: the fragments of its lines, and the
/// closing tag of a list or table that the last line left open.
pub open spec fn body_of(text: Seq<char>) -> Seq<char> {
    ended(scan(lines(text)))
}

/// The title of the document `text`.
pub open spec fn title_of(text: Seq<char>) -> Seq<char> {
    scan(lines(text)).title
}

/// The block parser at work: the body and title so far, and the open container.
pub struct Parser {
    body: Vec<char>,
    title: Vec<char>,
    open: Container,
}

impl View for Parser {
    type V = Scan;

    closed spec fn view(&self) -> Scan {
        Scan { body: self.body@, title: self.title@, open: self.open }
    }
}

impl Parser {
    /// A parser that has read nothing.
    pub fn new() -> (p: Parser)
        ensures
            p@ == start(),
    {
        let mut title: Vec<char> = Vec::new();
        push_str(&mut title, "Untitled Document");
        assert(title@ == default_title());
        Parser { body: Vec::new(), title, open: Container::Neutral }
    }

    /// Reads one more line.
    pub fn feed(&mut self, line: &[char])
        ensures
            final(self)@ == step(old(self)@, trim(line@)),
    {
        let t = trimmed(line);
        let classified = classify(t);
        let target = match classified {
            Line::Item(_) => Container::InList,
            Line::Row(_) => Container::InTable,
            _ => Container::Neutral,
        };
        if self.open != target {
            match self.open {
                Container::Neutral => {},
                Container::InList => push_str(&mut self.body, "</ul>"),
                Container::InTable => push_str(&mut self.body, "</table>"),
            }
            match target {
                Container::Neutral => {},
                Container::InList => push_str(&mut self.body, "<ul>"),
                Container::InTable => push_str(&mut self.body, "<table class='nxt-table'>"),
            }
            assert(self.body@ == old(self).body@ + closing(old(self).open) + opening(target));
            self.open = target;
        }
        render(&mut self.body, &classified);
        if let Line::Title(x) = classified {
            self.title = vec_of(x);
        }
    }

    /// Ends the document: closes the open container and hands out the body
    /// and the title.
    pub fn finish(self) -> (r: (Vec<char>, Vec<char>))
        ensures
            r.0@ == ended(self@),
            r.1@ == self@.title,
    {
        let mut body = self.body;
        match self.open {
            Container::Neutral => {
                assert(body@ == self@.body + closing(self@.open));
            },
            Container::InList => push_str(&mut body, "</ul>"),
            Container::InTable => push_str(&mut body, "</table>"),
        }
        (body, self.title)
    }
}

/// Converts the document `text`: its HTML body and its title.
pub fn parse_next(text: &str) -> (r: (String, String))
    ensures
        r.0@ == body_of(text@),
        r.1@ == title_of(text@),
{
    let chars = chars_of(text);
    let all = split_lines(chars.as_slice());
    let mut parser = Parser::new();
    let mut k: usize = 0;
    assert(views(all@).take(0) == Seq::<Seq<char>>::empty());
    while k < all.len()
        invariant
            k <= all@.len(),
            parser@ == scan(views(all@).take(k as int)),
        decreases all@.len() - k,
    {
        assert(views(all@).take(k + 1).drop_last() == views(all@).take(k as int));
        parser.feed(all[k]);
        k += 1;
    }
    assert(views(all@).take(k as int) == views(all@));
    let (body, title) = parser.finish();
    (string_of(body.as_slice()), string_of(title.as_slice()))
}

/// A text that begins with a prefix begins with the first character of it.
proof fn lemma_first_char(t: Seq<char>, p: Seq<char>)
    requires
        starts_with(t, p),
        p.len() > 0,
    ensures
        t.len() > 0,
        t[0] == p[0],
{
    assert(t.take(p.len() as int)[0] == p[0]);
}

/// A line is a table row exactly when it begins with `|`, and a list item
/// exactly when it begins with `- `: no rule that comes earlier takes such a
/// line away.
pub proof fn lemma_row_and_item(t: Seq<char>)
    ensures
        line_of(t) is Row <==> starts_with(t, "|"@),
        line_of(t) is Item <==> starts_with(t, "- "@),
{
    reveal_strlit("@title{");
    reveal_strlit("# ");
    reveal_strlit("## ");
    reveal_strlit("@note{");
    reveal_strlit("@code{");
    reveal_strlit("@image{");
    reveal_strlit("|");
    reveal_strlit("- ");
    if starts_with(t, "@title{"@) {
        lemma_first_char(t, "@title{"@);
    }
    if starts_with(t, "# "@) {
        lemma_first_char(t, "# "@);
    }
    if starts_with(t, "## "@) {
        lemma_first_char(t, "## "@);
    }
    if starts_with(t, "@note{"@) {
        lemma_first_char(t, "@note{"@);
    }
    if starts_with(t, "@code{"@) {
        lemma_first_char(t, "@code{"@);
    }
    if starts_with(t, "@image{"@) {
        lemma_first_char(t, "@image{"@);
    }
    if starts_with(t, "|"@) {
        lemma_first_char(t, "|"@);
    }
    if starts_with(t, "- "@) {
        lemma_first_char(t, "- "@);
    }
}

/// A line of white space alone emits no fragment. It closes the list or table
/// that is open, if one is, and leaves the title as it was.
pub proof fn lemma_blank_line(st: Scan, line: Seq<char>)
    requires
        all_white_space(line),
    ensures
        step(st, trim(line)) == (Scan {
            body: st.body + closing(st.open),
            title: st.title,
            open: Container::Neutral,
        }),
{
    lemma_trim_empty(line);
    assert(line_of(trim(line)) == LineView::Blank);
    assert(st.body + closing(st.open) + opening(Container::Neutral) + rendered(LineView::Blank)
        == st.body + closing(st.open));
    assert(st.body + rendered(LineView::Blank) == st.body);
    assert(st.body + closing(Container::Neutral) == st.body);
}

/// A line of white space at the end of a document changes nothing in its body:
/// what that line closes would have been closed at the end of the input.
pub proof fn lemma_trailing_blank_line(all: Seq<Seq<char>>, line: Seq<char>)
    requires
        all_white_space(line),
    ensures
        ended(scan(all.push(line))) == ended(scan(all)),
        scan(all.push(line)).title == scan(all).title,
{
    assert(all.push(line).drop_last() == all);
    lemma_blank_line(scan(all), line);
    assert(scan(all).body + closing(scan(all).open) + closing(Container::Neutral) == scan(
        all,
    ).body + closing(scan(all).open));
}

/// Where the last line of a document is a list item or a table row, the body
/// ends with the fragment of that line and, after it, the one closing tag of
/// the list or table.
pub proof fn lemma_open_at_end(text: Seq<char>)
    requires
        lines(text).len() > 0,
        container_of(line_of(trim(lines(text).last()))) != Container::Neutral,
    ensures
        ({
            let before = scan(lines(text).drop_last());
            let last = line_of(trim(lines(text).last()));
            body_of(text) == entered(before, container_of(last)) + rendered(last) + closing(
                container_of(last),
            )
        }),
{
}

/// Whether a line is a title line.
pub open spec fn sets_title(line: Seq<char>) -> bool {
    line_of(trim(line)) is Title
}

/// The title of a document is what its last title line carries.
pub proof fn lemma_last_title_wins(all: Seq<Seq<char>>, k: int)
    requires
        0 <= k < all.len(),
        sets_title(all[k]),
        forall|j: int| k < j < all.len() ==> !sets_title(#[trigger] all[j]),
    ensures
        scan(all).title == payload(trim(all[k])),
    decreases all.len(),
{
    if k < all.len() - 1 {
        let before = all.drop_last();
        assert(!sets_title(all[all.len() - 1]));
        assert(before[k] == all[k]);
        assert forall|j: int| k < j < before.len() implies !sets_title(#[trigger] before[j]) by {
            assert(before[j] == all[j]);
        }
        lemma_last_title_wins(before, k);
    }
}

/// A document without a title line has the default title.
pub proof fn lemma_default_title(all: Seq<Seq<char>>)
    requires
        forall|j: int| 0 <= j < all.len() ==> !sets_title(#[trigger] all[j]),
    ensures
        scan(all).title == default_title(),
    decreases all.len(),
{
    if all.len() > 0 {
        let before = all.drop_last();
        assert(!sets_title(all[all.len() - 1]));
        assert forall|j: int| 0 <= j < before.len() implies !sets_title(#[trigger] before[j]) by {
            assert(before[j] == all[j]);
        }
        lemma_default_title(before);
    }
}

/// The body only grows: what the first `k` lines have emitted stays at its
/// start, whatever lines follow.
pub proof fn lemma_body_grows(all: Seq<Seq<char>>, k: int)
    requires
        0 <= k <= all.len(),
    ensures
        scan(all.take(k)).body.is_prefix_of(scan(all).body),
    decreases all.len(),
{
    if k == all.len() {
        assert(all.take(k) == all);
    } else {
        let before = all.drop_last();
        lemma_body_grows(before, k);
        assert(before.take(k) == all.take(k));
        assert(scan(before).body.is_prefix_of(scan(all).body));
    }
}

} // verus!
