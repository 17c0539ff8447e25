use rim::editor::EditorMode;
use rim::status::{command_cursor_col, command_line, status_line};

#[test]
fn status_line_fills_the_width() {
    let s = status_line(EditorMode::Normal, Some("foo.txt"), false, 0, 4, 30);
    assert_eq!(s, " NORMAL | foo.txt         1:5 ");
    assert_eq!(s.len(), 30);
}

#[test]
fn status_line_marks_modified_and_unnamed() {
    let s = status_line(EditorMode::Insert, None, true, 9, 99, 0);
    assert_eq!(s, " INSERT | [No Name] [+]10:100 ");
}

#[test]
fn status_line_counts_bytes() {
    // "é" takes two bytes, so one space fewer is left
    let s = status_line(EditorMode::Command, Some("é"), false, 0, 0, 20);
    assert_eq!(s, " COMMAND | é   1:1 ");
    assert_eq!(s.len(), 20);
}

#[test]
fn command_line_shows_colon_and_command() {
    assert_eq!(command_line(EditorMode::Command, None), ":");
    assert_eq!(command_line(EditorMode::Command, Some("wq")), ":wq");
    assert_eq!(command_line(EditorMode::Normal, Some("wq")), "");
    assert_eq!(command_line(EditorMode::Insert, None), "");
}

#[test]
fn command_cursor_stands_after_the_command() {
    assert_eq!(command_cursor_col(None), 1);
    assert_eq!(command_cursor_col(Some("wq")), 3);
    assert_eq!(command_cursor_col(Some("é")), 3);
}
