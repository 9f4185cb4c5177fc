use risp::ast::Span;
use risp::diagnostic::{render, Loc};

#[test]
fn renders_caret_at_correct_column() {
    let src = "(defn main [] -> i32\n  (+ x 1))\n";
    // byte offset of 'x'
    let off = src.find('x').unwrap();
    let out = render("t.rsp", src, Loc::point(off), "undefined variable \"x\"");
    assert!(out.contains("t.rsp:2:6"), "{out}");
    assert!(out.contains("(+ x 1))"), "{out}");
    assert!(out.contains("^"), "{out}");
}

#[test]
fn span_widens_caret() {
    let src = "abc def";
    let loc = Loc { start: 4, end: 7 };
    let out = render("x", src, loc, "bad");
    assert!(out.contains("^^^"), "{out}");
}

#[test]
fn whole_report() {
    let src = "a\nbc de\nf";
    let out = render("t.rsp", src, Loc { start: 5, end: 7 }, "bad");
    assert_eq!(out, "error: bad\n --> t.rsp:2:4\n  |\n2 | bc de\n  |    ^^\n");
}

#[test]
fn report_of_the_documentation() {
    let src = "(defn main [] -> i32\n  (do\n    (println missing)\n    0))\n";
    let off = src.find("missing").unwrap();
    let loc = Loc::from_span(Span::new(off, off + 7));
    let out = render("examples/foo.rsp", src, loc, "undefined variable \"missing\"");
    assert_eq!(
        out,
        "error: undefined variable \"missing\"\n --> examples/foo.rsp:3:14\n  |\n3 |     (println missing)\n  |              ^^^^^^^\n"
    );
}

#[test]
fn line_numbers_widen_the_gutter() {
    let src = "\n\n\n\n\n\n\n\n\nx";
    let out = render("f", src, Loc::point(9), "m");
    assert_eq!(out, "error: m\n  --> f:10:1\n   |\n10 | x\n   | ^\n");
}

#[test]
fn offsets_behind_the_end_are_at_the_end() {
    let out = render("f", "ab\ncd", Loc { start: 99, end: 99 }, "m");
    assert_eq!(out, "error: m\n --> f:2:3\n  |\n2 | cd\n  |   ^\n");
}

#[test]
fn columns_count_bytes() {
    let src = "\u{e9}\u{2026} x\nnext";
    let out = render("f", src, Loc::point(6), "m");
    assert_eq!(out, "error: m\n --> f:1:7\n  |\n1 | \u{e9}\u{2026} x\n  |       ^\n");
}

#[test]
fn a_span_is_at_least_one_byte() {
    let a = Loc::from_span(Span::new(3, 3));
    assert_eq!((a.start, a.end), (3, 4));
    let b = Loc::from_span(Span::new(3, 9));
    assert_eq!((b.start, b.end), (3, 9));
    let c = Loc::point(usize::MAX);
    assert_eq!((c.start, c.end), (usize::MAX, usize::MAX));
}

#[test]
fn the_mark_is_under_its_place_whatever_the_line() {
    for lines in [0, 8, 9, 98, 99] {
        let src = format!("{}ab cd ef", "\n".repeat(lines));
        let start = lines + 3;
        let out = render("t", &src, Loc { start, end: start + 2 }, "bad");
        let all: Vec<&str> = out.lines().collect();
        let (shown, marks) = (all[all.len() - 2], all[all.len() - 1]);
        assert_eq!(shown.find('|'), marks.find('|'));
        let at = marks.find('^').unwrap();
        assert_eq!(&shown[at..at + 2], "cd");
        assert_eq!(&marks[at..], "^^");
    }
}
