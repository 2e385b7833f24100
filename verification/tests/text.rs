use next_markup::block::{classify, payload_of, render, row_cells, Line};
use next_markup::emphasis::{emphasize, find_marker, split_at_markers};
use next_markup::math::render_math;
use next_markup::parser::{Container, Parser};
use next_markup::text::{
    chars_of, find_first, find_last, push_all, push_str, split_on, split_lines, string_of,
    strip_prefix, trimmed, vec_of,
};

fn chars(s: &str) -> Vec<char> {
    s.chars().collect()
}

fn strings(parts: &[&[char]]) -> Vec<String> {
    parts.iter().map(|p| p.iter().collect()).collect()
}

#[test]
fn chars_and_strings_convert_both_ways() {
    assert_eq!(chars_of("aè€"), vec!['a', 'è', '€']);
    assert_eq!(string_of(&['a', 'è', '€']), "aè€");
    assert_eq!(string_of(&chars_of("")), "");
    assert_eq!(vec_of(&['x', 'y']), vec!['x', 'y']);
}

#[test]
fn pushing_appends_at_the_end() {
    let mut out = chars("ab");
    push_str(&mut out, "cd");
    push_all(&mut out, &['e']);
    assert_eq!(out, chars("abcde"));
}

#[test]
fn find_first_gives_position_or_length() {
    assert_eq!(find_first(&chars("a$b$"), '$'), 1);
    assert_eq!(find_first(&chars("abc"), '$'), 3);
    assert_eq!(find_first(&chars(""), '$'), 0);
}

#[test]
fn find_last_gives_position_or_none() {
    assert_eq!(find_last(&chars("a}b}c"), '}'), Some(3));
    assert_eq!(find_last(&chars("abc"), '}'), None);
    assert_eq!(find_last(&chars(""), '}'), None);
}

#[test]
fn strip_prefix_needs_the_whole_prefix() {
    let line = chars("## x");
    assert_eq!(strip_prefix(&line, "## "), Some(&line[3..]));
    assert_eq!(strip_prefix(&line, "# "), None);
    assert_eq!(strip_prefix(&chars("#"), "# "), None);
    assert_eq!(strip_prefix(&line, ""), Some(&line[..]));
}

#[test]
fn trimmed_takes_white_space_off_both_ends() {
    assert_eq!(trimmed(&chars(" \t a b \u{a0}\n")), &chars("a b")[..]);
    assert_eq!(trimmed(&chars(" \t ")), &[][..]);
    assert_eq!(trimmed(&chars("ab")), &chars("ab")[..]);
}

#[test]
fn split_keeps_empty_pieces() {
    let row = chars("|a||b|");
    assert_eq!(strings(&split_on(&row, '|')), vec!["", "a", "", "b", ""]);
    assert_eq!(strings(&split_on(&chars(""), '|')), vec![""]);
    assert_eq!(strings(&split_on(&chars("ab"), '|')), vec!["ab"]);
}

#[test]
fn lines_end_at_line_feeds() {
    let text = chars("foo\nbar\n\r\nbaz\r");
    assert_eq!(strings(&split_lines(&text)), vec!["foo", "bar", "", "baz\r"]);
    assert_eq!(strings(&split_lines(&chars("a\n"))), vec!["a"]);
    assert_eq!(strings(&split_lines(&chars("a\n\n"))), vec!["a", ""]);
    assert_eq!(strings(&split_lines(&chars("\n"))), vec![""]);
    assert!(split_lines(&chars("")).is_empty());
    assert_eq!(strings(&split_lines(&chars("a\r\r\nb"))), vec!["a\r", "b"]);
}

#[test]
fn markers_are_found_from_the_left() {
    assert_eq!(find_marker(&chars("a***b")), 1);
    assert_eq!(find_marker(&chars("a*b*")), 4);
    assert_eq!(find_marker(&chars("*")), 1);
    assert_eq!(strings(&split_at_markers(&chars("a***b**c"))), vec!["a", "*b", "c"]);
    assert_eq!(strings(&split_at_markers(&chars("*****"))), vec!["", "", "*"]);
    assert_eq!(strings(&split_at_markers(&chars(""))), vec![""]);
}

#[test]
fn emphasis_pass_alone() {
    assert_eq!(emphasize(&chars("**a**$**")), chars("<b>a</b>$**"));
    assert_eq!(emphasize(&chars("**a**b**c**")), chars("<b>a</b>b<b>c</b>"));
}

#[test]
fn math_pass_alone() {
    assert_eq!(render_math(&chars("a$b$c$d")), chars("a\\(b\\)c$d"));
    assert_eq!(render_math(&chars("$")), chars("$"));
    assert_eq!(render_math(&chars("**$x$**")), chars("**\\(x\\)**"));
}

#[test]
fn payload_is_between_first_open_and_last_close() {
    assert_eq!(payload_of(&chars("@code{fn f() { g() }}")), &chars("fn f() { g() }")[..]);
    assert_eq!(payload_of(&chars("@code{")), &[][..]);
    assert_eq!(payload_of(&chars("}@code{")), &[][..]);
}

#[test]
fn row_cells_are_trimmed_and_not_empty() {
    assert_eq!(strings(&row_cells(&chars("| a |  | b c|"))), vec!["a", "b c"]);
    assert!(row_cells(&chars("|")).is_empty());
}

#[test]
fn first_rule_that_fits_decides() {
    assert!(matches!(classify(&chars("")), Line::Blank));
    assert!(matches!(classify(&chars("@title{T}")), Line::Title(x) if x == &chars("T")[..]));
    assert!(matches!(classify(&chars("# h")), Line::Heading1(x) if x == &chars("h")[..]));
    assert!(matches!(classify(&chars("## h")), Line::Heading2(x) if x == &chars("h")[..]));
    assert!(matches!(classify(&chars("@note{n}")), Line::Note(x) if x == &chars("n")[..]));
    assert!(matches!(classify(&chars("@code{c}")), Line::Code(x) if x == &chars("c")[..]));
    assert!(matches!(classify(&chars("@image{i}")), Line::Image(x) if x == &chars("i")[..]));
    assert!(matches!(classify(&chars("|a|")), Line::Row(x) if strings(&x) == vec!["a"]));
    assert!(matches!(classify(&chars("- i")), Line::Item(x) if x == &chars("i")[..]));
    assert!(matches!(classify(&chars("@titlex")), Line::Paragraph(x) if x == &chars("@titlex")[..]));
    assert!(matches!(classify(&chars("-")), Line::Paragraph(_)));
}

#[test]
fn row_without_cells_renders_empty_row() {
    let mut out = Vec::new();
    render(&mut out, &classify(&chars("|")));
    assert_eq!(out, chars("<tr></tr>"));
}

#[test]
fn parser_reads_line_by_line() {
    let mut parser = Parser::new();
    parser.feed(&chars("  - one "));
    parser.feed(&chars("- two"));
    parser.feed(&chars("@title{ T }"));
    let (body, title) = parser.finish();
    assert_eq!(body, chars("<ul><li>one</li><li>two</li></ul>"));
    assert_eq!(title, chars(" T "));
    assert_ne!(Container::InList, Container::InTable);
}
