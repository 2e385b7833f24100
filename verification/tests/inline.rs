use next_markup::fmt;

#[test]
fn plain_text_is_unchanged() {
    assert_eq!(fmt("hello world"), "hello world");
    assert_eq!(fmt(""), "");
}

#[test]
fn one_bold_span() {
    assert_eq!(fmt("a **b** c"), "a <b>b</b> c");
}

#[test]
fn two_bold_spans_on_one_line() {
    assert_eq!(fmt("**a** and **b**"), "<b>a</b> and <b>b</b>");
}

#[test]
fn lone_marker_stays_literal() {
    assert_eq!(fmt("Ciao **mondo"), "Ciao **mondo");
}

#[test]
fn last_of_three_markers_stays_literal() {
    assert_eq!(fmt("**a** b ** c"), "<b>a</b> b ** c");
}

#[test]
fn five_markers_give_two_pairs_and_one_literal() {
    assert_eq!(fmt("**a**b**c**d**e"), "<b>a</b>b<b>c</b>d**e");
}

#[test]
fn three_stars_hold_one_marker() {
    assert_eq!(fmt("***"), "***");
    assert_eq!(fmt("a***b**c"), "a<b>*b</b>c");
}

#[test]
fn four_stars_hold_two_markers() {
    assert_eq!(fmt("****"), "<b></b>");
}

#[test]
fn two_math_spans() {
    assert_eq!(fmt("$a$ text $b$"), "\\(a\\) text \\(b\\)");
}

#[test]
fn unclosed_math_stays_literal() {
    assert_eq!(fmt("$unclosed"), "$unclosed");
}

#[test]
fn third_dollar_stays_literal() {
    assert_eq!(fmt("$x$ costs 5$"), "\\(x\\) costs 5$");
}

#[test]
fn empty_math_span() {
    assert_eq!(fmt("$$"), "\\(\\)");
}

#[test]
fn emphasis_then_math() {
    assert_eq!(fmt("**sum** $a+b$"), "<b>sum</b> \\(a+b\\)");
}

#[test]
fn non_ascii_text_passes_through() {
    assert_eq!(fmt("città **è** $π$"), "città <b>è</b> \\(π\\)");
}

#[test]
fn formatting_twice_changes_nothing_more() {
    for s in ["a **b** c", "**a** b ** c", "$a$ text $b$", "$unclosed", "***", "*$$*", "x**y$z"] {
        let once = fmt(s);
        assert_eq!(fmt(&once), once);
    }
}
