use next_markup::{compile_next_to_html, extract, generate_template, parse_next, template};

#[test]
fn round_trip_document() {
    let text = "@title{Demo}\n# Hello\n- one\n- two\n\n| a | b |\n| c | d |";
    let (body, title) = parse_next(text);
    assert_eq!(title, "Demo");
    assert_eq!(
        body,
        "<h1>Hello</h1><ul><li>one</li><li>two</li></ul>\
         <table class='nxt-table'><tr><td>a</td><td>b</td></tr>\
         <tr><td>c</td><td>d</td></tr></table>"
    );
}

#[test]
fn empty_document() {
    let (body, title) = parse_next("");
    assert_eq!(body, "");
    assert_eq!(title, "Untitled Document");
}

#[test]
fn white_space_lines_emit_nothing() {
    let (body, _) = parse_next("   \n\t\n \r\n");
    assert_eq!(body, "");
}

#[test]
fn blank_line_closes_list() {
    let (body, _) = parse_next("- a\n   \n- b\n");
    assert_eq!(body, "<ul><li>a</li></ul><ul><li>b</li></ul>");
}

#[test]
fn list_open_at_end_is_closed_once() {
    let (body, _) = parse_next("text\n- a\n- b");
    assert_eq!(body, "<p>text</p><ul><li>a</li><li>b</li></ul>");
}

#[test]
fn table_open_at_end_is_closed_once() {
    let (body, _) = parse_next("|x|\n");
    assert_eq!(body, "<table class='nxt-table'><tr><td>x</td></tr></table>");
}

#[test]
fn other_line_closes_table_and_list() {
    let (body, _) = parse_next("|x|\npara\n- i\n# h");
    assert_eq!(
        body,
        "<table class='nxt-table'><tr><td>x</td></tr></table><p>para</p>\
         <ul><li>i</li></ul><h1>h</h1>"
    );
}

#[test]
fn list_then_table_switches_container() {
    let (body, _) = parse_next("- i\n|x|\n- j");
    assert_eq!(
        body,
        "<ul><li>i</li></ul><table class='nxt-table'><tr><td>x</td></tr></table>\
         <ul><li>j</li></ul>"
    );
}

#[test]
fn last_title_wins() {
    let (body, title) = parse_next("@title{One}\n@title{Two}\n");
    assert_eq!(title, "Two");
    assert_eq!(body, "");
}

#[test]
fn title_line_closes_open_list() {
    let (body, title) = parse_next("- a\n@title{T}\n- b");
    assert_eq!(title, "T");
    assert_eq!(body, "<ul><li>a</li></ul><ul><li>b</li></ul>");
}

#[test]
fn headings() {
    let (body, _) = parse_next("# One **big**\n## Two $x$");
    assert_eq!(body, "<h1>One <b>big</b></h1><h2>Two \\(x\\)</h2>");
}

#[test]
fn note_code_image() {
    let (body, _) = parse_next("@note{mind **this**}\n@code{a ** b $c$}\n@image{pic.png}");
    assert_eq!(
        body,
        "<div class='note'>mind <b>this</b></div><pre><code>a ** b $c$</code></pre>\
         <img src='pic.png' class='nxt-image' alt='NeXt Image'>"
    );
}

#[test]
fn lines_are_trimmed() {
    let (body, _) = parse_next("   # Title  \r\n\t- item\t\n");
    assert_eq!(body, "<h1>Title</h1><ul><li>item</li></ul>");
}

#[test]
fn empty_cells_are_dropped() {
    let (body, _) = parse_next("|a||  |b|");
    assert_eq!(body, "<table class='nxt-table'><tr><td>a</td><td>b</td></tr></table>");
}

#[test]
fn cells_are_formatted() {
    let (body, _) = parse_next("| **a** | $b$ |");
    assert_eq!(
        body,
        "<table class='nxt-table'><tr><td><b>a</b></td><td>\\(b\\)</td></tr></table>"
    );
}

#[test]
fn marker_without_space_is_a_paragraph() {
    let (body, _) = parse_next("#nospace\n-nospace");
    assert_eq!(body, "<p>#nospace</p><p>-nospace</p>");
}

#[test]
fn extract_between_first_open_and_last_close() {
    assert_eq!(extract("@title{Titolo}"), "Titolo");
    assert_eq!(extract("@note{a {b} c} tail"), "a {b} c");
    assert_eq!(extract("x{}"), "");
}

#[test]
fn extract_unterminated_is_empty() {
    assert_eq!(extract("@title{open"), "");
    assert_eq!(extract("no braces"), "");
    assert_eq!(extract("}{"), "");
}

#[test]
fn unterminated_title_is_empty() {
    let (_, title) = parse_next("@title{open");
    assert_eq!(title, "");
}

#[test]
fn print_page_holds_title_and_body() {
    let page = template("T", "<p>B</p>");
    assert!(page.starts_with("<!DOCTYPE html>\n<html>\n<head>\n    <title>T</title>\n"));
    assert!(page.ends_with("<body>\n    <p>B</p>\n</body>\n</html>"));
    assert!(page.contains(".nxt-table td { border: 1px solid #ddd; padding: 12px; }"));
    assert!(page.contains("@media print { body { margin: 0; max-width: 100%; } }"));
}

#[test]
fn web_page_holds_title_and_body() {
    let page = generate_template("T", "<p>B</p>");
    assert!(page.starts_with(
        "<!DOCTYPE html>\n<html>\n<head>\n    <meta charset=\"utf-8\">\n    <title>T</title>\n"
    ));
    assert!(page.ends_with("<body>\n    <p>B</p>\n</body>\n</html>"));
    assert!(page.contains("h2 { color: #0056b3; margin-top: 30px; }"));
}

#[test]
fn compile_puts_document_into_web_page() {
    let page = compile_next_to_html("@title{Demo}\n# Hello");
    assert_eq!(page, generate_template("Demo", "<h1>Hello</h1>"));
}
