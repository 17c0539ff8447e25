use rim::{Buffer, Cursor};

#[test]
fn test_cursor_left_goes_left() {
    let mut cursor = Cursor::new(1, 10);

    cursor.left();

    assert_eq!([cursor.row(), cursor.col()], [1, 9]);
}

#[test]
fn test_cursor_cannot_go_left_from_first_column() {
    let mut cursor = Cursor::new(1, 0);

    cursor.left();

    assert_eq!([cursor.row(), cursor.col()], [1, 0]);
}

#[test]
fn cursor_default_is_at_origin() {
    let cursor = Cursor::default();
    assert_eq!([cursor.row(), cursor.col()], [0, 0]);
}

#[test]
fn cursor_up_in_clamps_column_to_shorter_line() {
    let buffer = Buffer::new("ab\nhello");
    let mut cursor = Cursor::new(1, 4);
    cursor.up_in(&buffer);
    assert_eq!([cursor.row(), cursor.col()], [0, 2]);
}

#[test]
fn cursor_up_in_from_first_row_stays() {
    let buffer = Buffer::new("ab\nhello");
    let mut cursor = Cursor::new(0, 1);
    cursor.up_in(&buffer);
    assert_eq!([cursor.row(), cursor.col()], [0, 1]);
}

#[test]
fn cursor_down_in_clamps_column_to_shorter_line() {
    let buffer = Buffer::new("hello\nab");
    let mut cursor = Cursor::new(0, 5);
    cursor.down_in(&buffer);
    assert_eq!([cursor.row(), cursor.col()], [1, 2]);
}

#[test]
fn cursor_down_in_from_last_row_stays() {
    let buffer = Buffer::new("hello\nab");
    let mut cursor = Cursor::new(1, 1);
    cursor.down_in(&buffer);
    assert_eq!([cursor.row(), cursor.col()], [1, 1]);
}

#[test]
fn cursor_right_in_stops_past_last_character() {
    let buffer = Buffer::new("ab");
    let mut cursor = Cursor::new(0, 1);
    cursor.right_in(&buffer);
    assert_eq!(cursor.col(), 2);
    cursor.right_in(&buffer);
    assert_eq!(cursor.col(), 2);
}

#[test]
fn cursor_move_to_and_move_to_col() {
    let mut cursor = Cursor::new(0, 0);
    cursor.move_to(3, 7);
    assert_eq!([cursor.row(), cursor.col()], [3, 7]);
    cursor.move_to_col(2);
    assert_eq!([cursor.row(), cursor.col()], [3, 2]);
}

#[test]
fn cursor_up_keeps_column() {
    let mut cursor = Cursor::new(3, 40);
    cursor.up();
    assert_eq!([cursor.row(), cursor.col()], [2, 40]);
}

#[test]
fn cursor_down_keeps_column() {
    let mut cursor = Cursor::new(3, 40);
    cursor.down();
    assert_eq!([cursor.row(), cursor.col()], [4, 40]);
}

#[test]
fn cursor_right_always_moves() {
    let mut cursor = Cursor::new(0, 7);
    cursor.right();
    assert_eq!([cursor.row(), cursor.col()], [0, 8]);
}

#[test]
fn cursor_left_undoes_right() {
    for col in [0, 1, 5] {
        let mut cursor = Cursor::new(2, col);
        cursor.right();
        cursor.left();
        assert_eq!([cursor.row(), cursor.col()], [2, col]);
    }
}
