use rim::editor::{EditorAction, EditorMode, Key};
use rim::{Buffer, Editor};

fn state(editor: &Editor) -> (String, usize, usize, EditorMode, bool) {
    (
        editor.buffer().to_string(),
        editor.cursor().row(),
        editor.cursor().col(),
        *editor.mode(),
        editor.buffer().is_modified(),
    )
}

fn editor_at(text: &str, moves: &[char]) -> Editor {
    let mut editor = Editor::new(Buffer::new(text));
    for m in moves {
        editor.handle_keypress(Key::Char(*m));
    }
    editor
}

#[test]
fn backspace_undoes_typing() {
    let mut editor = editor_at("abc\ndef", &['j', 'l', 'i']);
    let before = state(&editor);
    assert_eq!(editor.handle_keypress(Key::Char('x')), None);
    assert_eq!(editor.buffer().to_string(), "abc\ndxef");
    editor.handle_keypress(Key::Backspace);
    let after = state(&editor);
    assert_eq!((after.0, after.1, after.2, after.3), (before.0, before.1, before.2, before.3));
    assert!(after.4);
}

#[test]
fn backspace_after_enter_at_line_start_lands_one_column_on() {
    let mut editor = editor_at("abc\ndef", &['j', 'i']);
    editor.handle_keypress(Key::Enter);
    assert_eq!(editor.buffer().to_string(), "abc\n\ndef");
    assert_eq!((editor.cursor().row(), editor.cursor().col()), (2, 0));
    editor.handle_keypress(Key::Backspace);
    assert_eq!(editor.buffer().to_string(), "abc\ndef");
    // the row above was empty: its last column is 0, and the cursor goes one further
    assert_eq!((editor.cursor().row(), editor.cursor().col()), (1, 1));
}

#[test]
fn backspace_undoes_enter_mid_line() {
    let mut editor = editor_at("abcdef", &['l', 'l', 'i']);
    editor.handle_keypress(Key::Enter);
    assert_eq!(editor.buffer().to_string(), "ab\ncdef");
    editor.handle_keypress(Key::Backspace);
    assert_eq!(editor.buffer().to_string(), "abcdef");
    assert_eq!((editor.cursor().row(), editor.cursor().col()), (0, 2));
}

#[test]
fn backspace_after_empty_line_lands_at_column_one() {
    let mut editor = editor_at("\n\nx", &['j', 'j', 'i']);
    editor.handle_keypress(Key::Backspace);
    assert_eq!(editor.buffer().to_string(), "\nx");
    assert_eq!((editor.cursor().row(), editor.cursor().col()), (1, 1));
}

#[test]
fn joining_two_empty_lines_leaves_cursor_past_the_end() {
    let mut editor = editor_at("\n", &['j', 'i']);
    editor.handle_keypress(Key::Backspace);
    assert_eq!(editor.buffer().to_string(), "");
    assert_eq!((editor.cursor().row(), editor.cursor().col()), (0, 1));
    assert!(!editor.can_handle(&Key::Char('a')));
    assert!(!editor.can_handle(&Key::Backspace));
    assert!(!editor.can_handle(&Key::Enter));
    assert!(!editor.can_handle(&Key::Tab));
    assert!(editor.can_handle(&Key::Esc));
    assert!(editor.can_handle(&Key::Other));
    editor.handle_keypress(Key::Esc);
    assert!(editor.can_handle(&Key::Char('h')));
    editor.handle_keypress(Key::Char('h'));
    assert_eq!(editor.cursor().col(), 0);
    editor.handle_keypress(Key::Char('i'));
    assert!(editor.can_handle(&Key::Char('a')));
    editor.handle_keypress(Key::Char('a'));
    assert_eq!(editor.buffer().to_string(), "a");
}

#[test]
fn pending_command_starts_empty() {
    let mut editor = editor_at("ab", &[':']);
    assert_eq!(editor.pending_command(), None);
    editor.handle_keypress(Key::Esc);
    assert_eq!(editor.pending_command(), None);
}

#[test]
fn escape_undoes_mode_switch() {
    let mut editor = editor_at("abc\ndef", &['j', 'l']);
    let before = state(&editor);
    editor.handle_keypress(Key::Char('i'));
    editor.handle_keypress(Key::Esc);
    assert_eq!(state(&editor), before);
    editor.handle_keypress(Key::Char(':'));
    editor.handle_keypress(Key::Esc);
    assert_eq!(state(&editor), before);
}

#[test]
fn normal_mode_never_changes_text() {
    let mut editor = Editor::new(Buffer::new("  ab\ncd"));
    for c in ['h', 'j', 'k', 'l', '0', '^', '$', 'x', 'd', 'w', 'q'] {
        editor.handle_keypress(Key::Char(c));
        assert_eq!(editor.buffer().to_string(), "  ab\ncd");
        assert!(!editor.buffer().is_modified());
        assert_eq!(editor.mode(), &EditorMode::Normal);
    }
    for key in [Key::Enter, Key::Backspace, Key::Tab, Key::Esc, Key::Other] {
        assert_eq!(editor.handle_keypress(key), None);
        assert_eq!(editor.buffer().to_string(), "  ab\ncd");
    }
}

#[test]
fn command_mode_ignores_keys_but_escape() {
    let mut editor = editor_at("ab", &['l', ':']);
    for key in [Key::Char('w'), Key::Char('q'), Key::Char('x'), Key::Enter, Key::Backspace, Key::Tab, Key::Other] {
        assert_eq!(editor.handle_keypress(key), None);
        assert_eq!(editor.mode(), &EditorMode::Command);
        assert_eq!(editor.buffer().to_string(), "ab");
        assert_eq!(editor.cursor().col(), 1);
    }
    editor.handle_keypress(Key::Esc);
    assert_eq!(editor.mode(), &EditorMode::Normal);
}

#[test]
fn actions_only_come_from_normal_mode() {
    let mut editor = editor_at("ab", &['i']);
    assert_eq!(editor.handle_keypress(Key::Char('q')), None);
    assert_eq!(editor.handle_keypress(Key::Char('w')), None);
    assert_eq!(editor.buffer().to_string(), "qwab");
    editor.handle_keypress(Key::Esc);
    assert_eq!(editor.handle_keypress(Key::Char('w')), Some(EditorAction::Write));
    assert_eq!(editor.handle_keypress(Key::Char('q')), Some(EditorAction::Quit));
    assert_eq!(editor.buffer().to_string(), "qwab");
}

#[test]
fn typing_newline_char_cuts_the_line() {
    let mut editor = editor_at("abcd", &['l', 'l', 'i']);
    editor.handle_keypress(Key::Char('\n'));
    assert_eq!(editor.buffer().to_string(), "ab\ncd");
    assert_eq!((editor.cursor().row(), editor.cursor().col()), (0, 2));
}

#[test]
fn typing_at_end_of_line_appends() {
    let mut editor = editor_at("ab", &['l', 'l', 'i']);
    assert_eq!(editor.cursor().col(), 2);
    editor.handle_keypress(Key::Char('c'));
    editor.handle_keypress(Key::Char('d'));
    assert_eq!(editor.buffer().to_string(), "abcd");
    assert_eq!(editor.cursor().col(), 4);
}

#[test]
fn cursor_stays_in_buffer() {
    let mut editor = Editor::new(Buffer::new("long line\nx\n"));
    for c in ['$', 'l', 'l', 'j', 'j', 'j', 'k', '^'] {
        editor.handle_keypress(Key::Char(c));
        let row = editor.cursor().row();
        assert!(row < editor.buffer().line_count());
        assert!(editor.cursor().col() <= editor.buffer().line_len(row));
    }
    assert_eq!((editor.cursor().row(), editor.cursor().col()), (1, 0));
}

#[test]
fn written_keeps_text_and_clears_modified() {
    let mut editor = editor_at("ab", &['i']);
    editor.handle_keypress(Key::Tab);
    assert!(editor.buffer().is_modified());
    editor.written();
    assert!(!editor.buffer().is_modified());
    assert_eq!(editor.buffer().to_string(), "  ab");
    assert_eq!(editor.mode(), &EditorMode::Insert);
}

#[test]
fn other_key_in_insert_mode_does_nothing() {
    let mut editor = editor_at("ab", &['i']);
    assert_eq!(editor.handle_keypress(Key::Other), None);
    assert_eq!(editor.buffer().to_string(), "ab");
    assert!(!editor.buffer().is_modified());
}

#[test]
fn mode_names() {
    assert_eq!(EditorMode::Normal.to_string(), "Normal");
    assert_eq!(EditorMode::Insert.to_string(), "Insert");
    assert_eq!(EditorMode::Command.to_string(), "Command");
}
