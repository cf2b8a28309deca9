use diagnostics::code_reference::{CharRef, CodeLines};
use diagnostics::span::{make_span, RenderError, Span};
use diagnostics::warn::{abort_message, render, render_point, Segment, Style};
use diagnostics::{Element, ElementReference};
use std::rc::Rc;

fn full_text(segs: &[Segment]) -> String {
    let mut s = String::new();
    for seg in segs {
        s.extend(seg.text.iter());
    }
    s
}

fn span_of(buf: &Rc<CodeLines>, l1: usize, c1: usize, l2: usize, c2: usize) -> Span {
    let v1 = buf.code[l1][c1];
    let first = CharRef::new(v1, l1, c1, buf.clone());
    let last = CharRef::new(' ', l2, c2, buf.clone());
    make_span(first, last).unwrap()
}

#[test]
fn single_line_report_underlines_the_region() {
    let buf = Rc::new(CodeLines::new(
        &"main.src".to_string(),
        &"let x = 1\nlet y = ✗undefined\n".to_string(),
    ));
    let span = span_of(&buf, 1, 8, 1, 17);
    let segs = render(&span, "E001", "unknown name", "expected a defined name").unwrap();
    assert_eq!(
        full_text(&segs),
        "error[E001]: unknown name\n --> main.src:2:9\n  | \n2 | let y = ✗undefined\n  |         ^^^^^^^^^expected a defined name\n\n"
    );
    assert_eq!(segs[0].style, Style::Alert);
    assert_eq!(segs[0].text.iter().collect::<String>(), "error[E001]");
    assert_eq!(segs[1].style, Style::Strong);
    let underline: String = segs[9].text.iter().collect();
    assert_eq!(underline, "^^^^^^^^^expected a defined name\n");
}

#[test]
fn single_line_underline_counts_a_tab_as_eight() {
    let buf = Rc::new(CodeLines::new(&"t.src".to_string(), &"\tx\n".to_string()));
    let span = span_of(&buf, 0, 0, 0, 1);
    let segs = render(&span, "E2", "tabbed", "here").unwrap();
    let underline: String = segs[9].text.iter().collect();
    assert_eq!(underline, "^^^^^^^^here\n");
    let padding: String = segs[8].text.iter().collect();
    assert_eq!(padding, "");
}

#[test]
fn single_line_padding_is_tab_aware() {
    let buf = Rc::new(CodeLines::new(&"t.src".to_string(), &"\tab\n".to_string()));
    let span = span_of(&buf, 0, 1, 0, 3);
    let segs = render(&span, "E3", "after tab", "both").unwrap();
    let padding: String = segs[8].text.iter().collect();
    assert_eq!(padding, "        ");
    let underline: String = segs[9].text.iter().collect();
    assert_eq!(underline, "^^both\n");
}

#[test]
fn six_line_span_shows_every_line_without_ellipsis() {
    let buf = Rc::new(CodeLines::new(
        &"six.src".to_string(),
        &"alpha\nbeta\ngamma\ndelta\nepsilon\nzeta\n".to_string(),
    ));
    let span = span_of(&buf, 0, 0, 5, 3);
    let segs = render(&span, "E10", "six", "here").unwrap();
    let text = full_text(&segs);
    assert_eq!(
        text,
        "error[E10]: six\n --> six.src:1:1\n  | \n1 | / alpha\n2 | | beta\n3 | | gamma\n4 | | delta\n5 | | epsilon\n6 | | zeta\n  | |___here\n\n"
    );
    assert_eq!(text.matches("...").count(), 0);
}

#[test]
fn seven_line_span_closes_the_one_line_gap() {
    let buf = Rc::new(CodeLines::new(
        &"seven.src".to_string(),
        &"a\nb\nc\nd\ne\nf\ng\n".to_string(),
    ));
    let span = span_of(&buf, 0, 0, 6, 1);
    let segs = render(&span, "E11", "seven", "end").unwrap();
    let text = full_text(&segs);
    assert_eq!(text.matches("...").count(), 0);
    assert!(text.contains("5 | | e\n"));
}

#[test]
fn ten_line_span_elides_the_middle_once() {
    let buf = Rc::new(CodeLines::new(
        &"ten.src".to_string(),
        &"one\ntwo\nthree\nfour\nfive\nsix\nseven\neight\nnine\nten\n".to_string(),
    ));
    let span = span_of(&buf, 0, 0, 9, 2);
    let segs = render(&span, "E99", "long", "ends here").unwrap();
    let text = full_text(&segs);
    assert_eq!(
        text,
        "error[E99]: long\n  --> ten.src:1:1\n   | \n 1 | / one\n 2 | | two\n 3 | | three\n 4 | | four\n...  | \n 9 | | nine\n10 | | ten\n   | |__ends here\n\n"
    );
    assert_eq!(text.matches("...").count(), 1);
}

#[test]
fn eight_line_span_elides_two_lines() {
    let buf = Rc::new(CodeLines::new(
        &"eight.src".to_string(),
        &"a\nb\nc\nd\ne\nf\ng\nh\n".to_string(),
    ));
    let span = span_of(&buf, 0, 0, 7, 1);
    let segs = render(&span, "E12", "eight", "end").unwrap();
    let text = full_text(&segs);
    assert_eq!(text.matches("...").count(), 1);
    assert!(!text.contains("5 | "));
    assert!(!text.contains("6 | "));
    assert!(text.contains("7 | | g\n"));
    assert!(text.contains("8 | | h\n"));
}

#[test]
fn render_rejects_line_out_of_range() {
    let buf = Rc::new(CodeLines::new(&"f".to_string(), &"ab\n".to_string()));
    let first = CharRef::new('a', 0, 0, buf.clone());
    let last = CharRef::new(' ', 4, 0, buf.clone());
    let span = Span { first, last };
    assert_eq!(
        render(&span, "E", "x", "y").unwrap_err(),
        RenderError::CoordinateOutOfRange
    );
}

#[test]
fn render_rejects_column_out_of_range() {
    let buf = Rc::new(CodeLines::new(&"f".to_string(), &"ab\n".to_string()));
    let first = CharRef::new('a', 0, 0, buf.clone());
    let last = CharRef::new(' ', 0, 9, buf.clone());
    let span = Span { first, last };
    assert_eq!(
        render(&span, "E", "x", "y").unwrap_err(),
        RenderError::CoordinateOutOfRange
    );
}

#[test]
fn render_point_highlights_one_character() {
    let buf = Rc::new(CodeLines::new(&"f".to_string(), &"let x = 1\n".to_string()));
    let character = CharRef::new('x', 0, 4, buf);
    let segs = render_point(&character, "seen here").unwrap();
    assert_eq!(
        full_text(&segs),
        "Debug message at character 1:5 in file f \nlet x = 1seen here\n"
    );
    assert_eq!(segs[0].style, Style::Note);
    assert_eq!(segs[2].text.iter().collect::<String>(), "x");
    assert_eq!(segs[3].text.iter().collect::<String>(), " = 1");
}

#[test]
fn render_point_rejects_out_of_range() {
    let buf = Rc::new(CodeLines::new(&"f".to_string(), &"ab\n".to_string()));
    let character = CharRef::new('a', 0, 3, buf);
    assert_eq!(
        render_point(&character, "m").unwrap_err(),
        RenderError::CoordinateOutOfRange
    );
}

#[test]
fn abort_message_names_buffer_and_reason() {
    let buf = CodeLines::new(&"prog.src".to_string(), &"x\n".to_string());
    let seg = abort_message(&buf, "missing entry point");
    assert_eq!(seg.style, Style::Fatal);
    assert_eq!(
        seg.text.iter().collect::<String>(),
        "Unable to compile prog.src: missing entry point\nExiting\n"
    );
}

#[test]
fn element_reference_carries_payload_and_span() {
    let buf = Rc::new(CodeLines::new(&"f".to_string(), &"f(1)\n".to_string()));
    let arg = ElementReference {
        first: CharRef::new('1', 0, 2, buf.clone()),
        last: CharRef::new(')', 0, 3, buf.clone()),
        element: Element::Object { value: 1u32 },
    };
    let call = ElementReference {
        first: CharRef::new('f', 0, 0, buf.clone()),
        last: CharRef::new(')', 0, 3, buf.clone()),
        element: Element::Function { name: "f".to_string(), args: vec![arg] },
    };
    match call.element {
        Element::Function { ref name, ref args } => {
            assert_eq!(name, "f");
            assert_eq!(args.len(), 1);
            assert!(matches!(args[0].element, Element::Object { value: 1u32 }));
        }
        Element::Object { .. } => panic!("expected a function element"),
    }
    let span = make_span(call.first, call.last).unwrap();
    let segs = render(&span, "E7", "call", "this call").unwrap();
    assert!(full_text(&segs).contains("f(1)"));
}
