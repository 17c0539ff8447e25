use rim::Buffer;

#[test]
fn text_comes_back_unchanged() {
    for text in ["", "a", "\n", "Hello\nWorld", "trailing\n", "\n\nx\n", "tab\there"] {
        assert_eq!(Buffer::new(text).to_string(), text);
    }
}

#[test]
fn lines_are_cut_at_newlines() {
    let buffer = Buffer::new("one\ntwo\n");
    assert_eq!(buffer.line_count(), 3);
    assert_eq!(buffer.lines(), vec!["one".to_string(), "two".to_string(), String::new()]);
    assert_eq!(buffer.line(1), "two");
    assert_eq!(buffer.line_len(0), 3);
}

#[test]
fn empty_text_has_one_empty_line() {
    let buffer = Buffer::new("");
    assert_eq!(buffer.line_count(), 1);
    assert_eq!(buffer.line_len(0), 0);
    assert_eq!(buffer.max_col(0), 0);
}

#[test]
fn max_col_is_last_character() {
    let buffer = Buffer::new("012345\nab");
    assert_eq!(buffer.max_col(0), 5);
    assert_eq!(buffer.max_col(1), 1);
}

#[test]
fn first_non_whitespace_col_skips_blanks() {
    let buffer = Buffer::new("  \tx y\n   \nabc\n\u{3000}\u{a0}z");
    assert_eq!(buffer.first_non_whitespace_col(0), 3);
    // a blank line: the last column
    assert_eq!(buffer.first_non_whitespace_col(1), 2);
    assert_eq!(buffer.first_non_whitespace_col(2), 0);
    assert_eq!(buffer.first_non_whitespace_col(3), 2);
}

#[test]
fn new_buffer_is_clean_and_has_no_path() {
    let buffer = Buffer::new("x");
    assert!(!buffer.is_modified());
    assert_eq!(buffer.path(), None);
}

#[test]
fn with_path_keeps_the_path() {
    let buffer = Buffer::with_path("x", Some("foo.txt".to_string()));
    assert_eq!(buffer.path(), Some("foo.txt"));
    assert_eq!(buffer.to_string(), "x");
}

#[test]
fn insert_at_position_puts_char_in() {
    let mut buffer = Buffer::new("ac\nz");
    buffer.insert_at_position('b', 0, 1);
    assert_eq!(buffer.to_string(), "abc\nz");
    assert!(buffer.is_modified());
    buffer.insert_at_position('!', 1, 1);
    assert_eq!(buffer.to_string(), "abc\nz!");
}

#[test]
fn insert_newline_cuts_the_line() {
    let mut buffer = Buffer::new("abcd");
    buffer.insert_at_position('\n', 0, 2);
    assert_eq!(buffer.line_count(), 2);
    assert_eq!(buffer.to_string(), "ab\ncd");
}

#[test]
fn split_line_at_end_makes_empty_line() {
    let mut buffer = Buffer::new("ab\ncd");
    buffer.split_line(0, 2);
    assert_eq!(buffer.lines(), vec!["ab".to_string(), String::new(), "cd".to_string()]);
}

#[test]
fn join_lines_appends_to_previous() {
    let mut buffer = Buffer::new("ab\ncd\nef");
    buffer.join_lines(2);
    assert_eq!(buffer.to_string(), "ab\ncdef");
    assert!(buffer.is_modified());
}

#[test]
fn remove_at_position_takes_char_out() {
    let mut buffer = Buffer::new("abc");
    buffer.remove_at_position(0, 1);
    assert_eq!(buffer.to_string(), "ac");
}

#[test]
fn mark_clean_clears_modified() {
    let mut buffer = Buffer::with_path("abc", Some("p".to_string()));
    buffer.remove_at_position(0, 0);
    assert!(buffer.is_modified());
    buffer.mark_clean();
    assert!(!buffer.is_modified());
    assert_eq!(buffer.path(), Some("p"));
    assert_eq!(buffer.to_string(), "bc");
}

#[test]
fn unicode_text_round_trips() {
    let text = "héllo\nwörld ✓";
    let buffer = Buffer::new(text);
    assert_eq!(buffer.line_len(0), 5);
    assert_eq!(buffer.to_string(), text);
}
