use rim::editor::{EditorAction, EditorMode, Key};
use rim::{Buffer, Editor};

#[test]
fn insert() {
    let mut editor = Editor::new(Buffer::new(""));

    editor.handle_keypress(Key::Char('i'));
    assert_eq!(editor.mode(), &EditorMode::Insert);
}

#[test]
fn command() {
    let mut editor = Editor::new(Buffer::new(""));

    editor.handle_keypress(Key::Char(':'));
    assert_eq!(editor.mode(), &EditorMode::Command);
}

#[test]
fn quit() {
    let mut editor = Editor::new(Buffer::new(""));

    let action = editor.handle_keypress(Key::Char('q'));

    assert_eq!(action, Some(EditorAction::Quit));
}

#[test]
fn write() {
    let mut editor = Editor::new(Buffer::new(""));

    let action = editor.handle_keypress(Key::Char('w'));

    assert_eq!(action, Some(EditorAction::Write));
}

#[test]
fn left() {
    let mut editor = Editor::new(Buffer::new("hello\nworld"));
    editor.handle_keypress(Key::Char('l'));
    editor.handle_keypress(Key::Char('h'));
    assert_eq!(editor.cursor().col(), 0);
}

#[test]
fn down() {
    let mut editor = Editor::new(Buffer::new("line0\nline1\nline2"));
    editor.handle_keypress(Key::Char('j'));
    assert_eq!(editor.cursor().row(), 1);
}

#[test]
fn up() {
    let mut editor = Editor::new(Buffer::new("line0\nline1\nline2"));
    editor.handle_keypress(Key::Char('j'));
    editor.handle_keypress(Key::Char('k'));
    assert_eq!(editor.cursor().row(), 0);
}

#[test]
fn right() {
    let mut editor = Editor::new(Buffer::new("hello\nworld"));
    editor.handle_keypress(Key::Char('l'));
    assert_eq!(editor.cursor().col(), 1);
}

#[test]
fn jump_to_eol() {
    let mut editor = Editor::new(Buffer::new("012345"));
    editor.handle_keypress(Key::Char('$'));
    assert_eq!(editor.cursor().col(), 5);
}

#[test]
fn jump_to_start_of_line() {
    let mut editor = Editor::new(Buffer::new("012345"));

    editor.handle_keypress(Key::Char('$'));
    editor.handle_keypress(Key::Char('0'));

    assert_eq!(editor.cursor().col(), 0);
}

#[test]
fn jump_to_first_non_blank_char() {
    let mut editor = Editor::new(Buffer::new("    012345"));

    editor.handle_keypress(Key::Char('^'));

    assert_eq!(editor.cursor().col(), 4);
}

#[test]
fn esc() {
    let mut editor = Editor::new(Buffer::new(""));

    editor.handle_keypress(Key::Char(':'));
    editor.handle_keypress(Key::Esc);

    assert_eq!(editor.mode(), &EditorMode::Normal);
}

#[test]
fn written() {
    let mut editor = Editor::new(Buffer::new("Hello"));

    editor.handle_keypress(Key::Char('i'));
    editor.handle_keypress(Key::Char('h'));
    assert!(editor.buffer().is_modified());

    editor.written();
    assert!(!editor.buffer().is_modified());
}

#[test]
fn editor_esc() {
    let mut editor = Editor::new(Buffer::new(""));

    editor.handle_keypress(Key::Char('i'));
    editor.handle_keypress(Key::Esc);

    assert_eq!(editor.mode(), &EditorMode::Normal);
}

#[test]
fn chars() {
    let mut editor = Editor::new(Buffer::new("Hello"));

    // switch to insert mode
    editor.handle_keypress(Key::Char('i'));

    editor.handle_keypress(Key::Char('h'));
    editor.handle_keypress(Key::Char('j'));
    editor.handle_keypress(Key::Char('k'));
    editor.handle_keypress(Key::Char('l'));
    editor.handle_keypress(Key::Char('i'));
    editor.handle_keypress(Key::Char('q'));

    assert_eq!(editor.buffer().to_string(), "hjkliqHello");
}

#[test]
fn removes_character() {
    let mut editor = Editor::new(Buffer::new("Seppuku"));

    // move right
    editor.handle_keypress(Key::Char('l'));

    // switch to insert mode
    editor.handle_keypress(Key::Char('i'));

    editor.handle_keypress(Key::Backspace);

    assert_eq!(editor.buffer().to_string(), "eppuku");
}

#[test]
fn moves_cursor_back() {
    let mut editor = Editor::new(Buffer::new("Seppuku"));

    // move right
    editor.handle_keypress(Key::Char('l'));

    // switch to insert mode
    editor.handle_keypress(Key::Char('i'));

    editor.handle_keypress(Key::Backspace);

    assert_eq!(editor.cursor().col(), 0);
}

#[test]
fn at_start_of_file() {
    let mut editor = Editor::new(Buffer::new("Hello\nWorld"));

    // switch to insert mode
    editor.handle_keypress(Key::Char('i'));

    editor.handle_keypress(Key::Backspace);
    assert_eq!(editor.buffer().to_string(), "Hello\nWorld");
    assert_eq!(editor.cursor().row(), 0);
    assert_eq!(editor.cursor().col(), 0);
}

#[test]
fn at_start_of_line() {
    let mut editor = Editor::new(Buffer::new("01234\nWorld"));

    // move down
    editor.handle_keypress(Key::Char('j'));

    // switch to insert mode
    editor.handle_keypress(Key::Char('i'));

    editor.handle_keypress(Key::Backspace);

    assert_eq!(editor.buffer().to_string(), "01234World");
    assert_eq!(editor.cursor().row(), 0);
    assert_eq!(editor.cursor().col(), 5);
}

#[test]
fn enter() {
    let mut editor = Editor::new(Buffer::new("Hello World"));

    // move right 5 times
    for _ in 0..5 {
        editor.handle_keypress(Key::Char('l'));
    }

    // switch to insert mode
    editor.handle_keypress(Key::Char('i'));

    // insert a newline character
    editor.handle_keypress(Key::Enter);

    assert_eq!(editor.buffer().to_string(), "Hello\n World");
    assert_eq!(editor.cursor().row(), 1);
    assert_eq!(editor.cursor().col(), 0);
}

#[test]
fn tab() {
    let mut editor = Editor::new(Buffer::new("Hello World"));

    editor.handle_keypress(Key::Char('l'));
    editor.handle_keypress(Key::Char('i'));
    editor.handle_keypress(Key::Tab);

    // TAB_WIDTH currently is 2, so we expect two spaces to be inserted
    assert_eq!(editor.buffer().to_string(), "H  ello World");
    assert_eq!(editor.cursor().row(), 0);
    assert_eq!(editor.cursor().col(), 3);
}
