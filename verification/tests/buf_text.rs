use bumpalo::Bump;
use codegen_core::buf::Buf;

#[test]
fn indentation_flushes_before_visible_text() {
    let arena = Bump::new();
    let mut buf = Buf::new_in(&arena);
    buf.indent(4);
    buf.push_str("hello");
    assert_eq!(buf.as_str(), "    hello");
}

#[test]
fn indentation_on_empty_line_is_never_written() {
    let arena = Bump::new();
    let mut buf = Buf::new_in(&arena);
    let mut tail = Buf::new_in(&arena);
    tail.indent(2);
    tail.push_str("a");
    tail.newline();
    tail.indent(6);
    tail.push_str("b");
    buf.indent(2);
    buf.push_str("a");
    buf.newline();
    buf.fmt_end_of_file();
    assert_eq!(tail.as_str(), "  a\n      b");
    assert_eq!(buf.as_str(), "  a\n");
}

#[test]
fn newline_drops_pending_spaces() {
    let arena = Bump::new();
    let mut buf = Buf::new_in(&arena);
    buf.indent(0);
    buf.push_str("a");
    buf.spaces(2);
    buf.newline();
    buf.indent(2);
    buf.push('x');
    assert_eq!(buf.as_str(), "a\n  x");
}

#[test]
fn push_str_empty_changes_nothing() {
    let arena = Bump::new();
    let mut buf = Buf::new_in(&arena);
    buf.indent(0);
    buf.push_str("a");
    buf.spaces(3);
    buf.push_str("");
    assert_eq!(buf.as_str(), "a");
    assert!(buf.ends_with_space());
}

#[test]
fn push_str_allow_spaces_keeps_them() {
    let arena = Bump::new();
    let mut buf = Buf::new_in(&arena);
    buf.indent(0);
    buf.push_str_allow_spaces("a  b ");
    assert_eq!(buf.as_str(), "a  b ");
    assert!(buf.ends_with_space());
}

#[test]
fn push_char_literal_flushes_pending_whitespace() {
    let arena = Bump::new();
    let mut buf = Buf::new_in(&arena);
    buf.indent(0);
    buf.push_str("a");
    buf.spaces(1);
    buf.push_char_literal('\'');
    assert_eq!(buf.as_str(), "a '");
}

#[test]
fn ensure_ends_with_newline_is_idempotent() {
    let arena = Bump::new();
    let mut buf = Buf::new_in(&arena);
    buf.indent(0);
    buf.push_str("a");
    buf.ensure_ends_with_newline();
    buf.ensure_ends_with_newline();
    buf.fmt_end_of_file();
    assert_eq!(buf.as_str(), "a\n");
}

#[test]
fn ensure_ends_with_newline_on_empty_buffer_is_a_no_op() {
    let arena = Bump::new();
    let mut buf = Buf::new_in(&arena);
    buf.ensure_ends_with_newline();
    buf.fmt_end_of_file();
    assert_eq!(buf.as_str(), "");
}

#[test]
fn ensure_ends_with_blank_line_tops_up_to_two_newlines() {
    let arena = Bump::new();
    let mut buf = Buf::new_in(&arena);
    buf.indent(0);
    buf.push_str("a");
    buf.newline();
    buf.ensure_ends_with_blank_line();
    buf.fmt_end_of_file();
    assert_eq!(buf.as_str(), "a\n\n");

    let mut again = Buf::new_in(&arena);
    again.indent(0);
    again.push_str("b");
    again.ensure_ends_with_blank_line();
    again.ensure_ends_with_blank_line();
    again.fmt_end_of_file();
    assert_eq!(again.as_str(), "b\n\n");
}

#[test]
fn fmt_end_of_file_leaves_no_trailing_spaces() {
    let arena = Bump::new();
    let mut buf = Buf::new_in(&arena);
    buf.indent(0);
    buf.push_str("a");
    buf.spaces(2);
    buf.fmt_end_of_file();
    assert_eq!(buf.as_str(), "a\n");
}

#[test]
fn ends_with_space_and_newline_observe_pending_whitespace() {
    let arena = Bump::new();
    let mut buf = Buf::new_in(&arena);
    buf.indent(0);
    buf.push_str("a");
    assert!(!buf.ends_with_space());
    assert!(!buf.ends_with_newline());
    buf.spaces(1);
    assert!(buf.ends_with_space());
    buf.newline();
    assert!(!buf.ends_with_space());
    assert!(buf.ends_with_newline());
}

#[test]
fn into_bump_str_hands_back_the_flushed_text() {
    let arena = Bump::new();
    let mut buf = Buf::new_in(&arena);
    buf.indent(0);
    buf.push_str("done");
    let s: &str = buf.into_bump_str();
    assert_eq!(s, "done");
}
