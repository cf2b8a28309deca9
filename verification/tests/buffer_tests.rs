use diagnostics::code_reference::{CharRef, CodeLines};
use diagnostics::span::{make_span, RenderError};
use std::rc::Rc;

fn line_string(buf: &CodeLines, i: usize) -> String {
    buf.code[i].iter().collect()
}

fn concat_lines(buf: &CodeLines) -> String {
    let mut s = String::new();
    for line in &buf.code {
        s.extend(line.iter());
    }
    s
}

#[test]
fn buffer_splits_terminated_lines() {
    let buf = CodeLines::new(&"f".to_string(), &"ab\ncd\n".to_string());
    assert_eq!(buf.name, "f");
    assert_eq!(buf.code.len(), 2);
    assert_eq!(line_string(&buf, 0), "ab\n");
    assert_eq!(line_string(&buf, 1), "cd\n");
}

#[test]
fn buffer_retains_unterminated_last_line() {
    let buf = CodeLines::new(&"f".to_string(), &"ab\ncd".to_string());
    assert_eq!(buf.code.len(), 2);
    assert_eq!(line_string(&buf, 0), "ab\n");
    assert_eq!(line_string(&buf, 1), "cd");
}

#[test]
fn buffer_of_empty_text_has_no_lines() {
    let buf = CodeLines::new(&"f".to_string(), &String::new());
    assert_eq!(buf.code.len(), 0);
}

#[test]
fn buffer_round_trips_text() {
    for text in ["", "x", "one\ntwo\nthree\n", "one\n\n\ntail", "\n\n"] {
        let buf = CodeLines::new(&"f".to_string(), &text.to_string());
        assert_eq!(concat_lines(&buf), text);
    }
}

#[test]
fn to_char_ref_enumerates_line_major() {
    let buf = CodeLines::new(&"f".to_string(), &"ab\nc\n".to_string());
    let origin = Rc::new(buf);
    let refs = CodeLines::to_char_ref(origin.clone());
    let expected = [
        ('a', 0, 0),
        ('b', 0, 1),
        ('\n', 0, 2),
        ('c', 1, 0),
        ('\n', 1, 1),
    ];
    assert_eq!(refs.len(), expected.len());
    for (r, (value, line, pos)) in refs.iter().zip(expected.iter()) {
        assert_eq!(r.value, *value);
        assert_eq!(r.line, *line);
        assert_eq!(r.pos, *pos);
        assert_eq!(r.origin.name, "f");
    }
}

#[test]
fn char_ref_new_keeps_fields() {
    let buf = CodeLines::new(&"f".to_string(), &"xy\n".to_string());
    let origin = Rc::new(buf);
    let r = CharRef::new('y', 0, 1, origin);
    assert_eq!(r.value, 'y');
    assert_eq!(r.line, 0);
    assert_eq!(r.pos, 1);
}

#[test]
fn make_span_accepts_ordered_endpoints() {
    let buf = Rc::new(CodeLines::new(&"f".to_string(), &"abc\ndef\n".to_string()));
    let first = CharRef::new('a', 0, 0, buf.clone());
    let last = CharRef::new('e', 1, 1, buf.clone());
    let span = make_span(first, last).unwrap();
    assert_eq!(span.first.line, 0);
    assert_eq!(span.last.line, 1);
}

#[test]
fn make_span_accepts_single_character_region() {
    let buf = Rc::new(CodeLines::new(&"f".to_string(), &"abc\n".to_string()));
    let first = CharRef::new('b', 0, 1, buf.clone());
    let last = CharRef::new('c', 0, 2, buf.clone());
    assert!(make_span(first, last).is_ok());
}

#[test]
fn make_span_rejects_reversed_lines() {
    let buf = Rc::new(CodeLines::new(&"f".to_string(), &"abc\ndef\n".to_string()));
    let first = CharRef::new('d', 1, 0, buf.clone());
    let last = CharRef::new('a', 0, 0, buf.clone());
    assert_eq!(make_span(first, last).unwrap_err(), RenderError::InvalidSpan);
}

#[test]
fn make_span_rejects_reversed_columns() {
    let buf = Rc::new(CodeLines::new(&"f".to_string(), &"abc\n".to_string()));
    let first = CharRef::new('c', 0, 2, buf.clone());
    let last = CharRef::new('a', 0, 0, buf.clone());
    assert_eq!(make_span(first, last).unwrap_err(), RenderError::InvalidSpan);
}

#[test]
fn make_span_rejects_cross_buffer_endpoints() {
    let one = Rc::new(CodeLines::new(&"f".to_string(), &"abc\n".to_string()));
    let other = Rc::new(CodeLines::new(&"g".to_string(), &"xyz\n".to_string()));
    let first = CharRef::new('a', 0, 0, one);
    let last = CharRef::new('x', 0, 1, other);
    assert_eq!(make_span(first, last).unwrap_err(), RenderError::InvalidSpan);
}
