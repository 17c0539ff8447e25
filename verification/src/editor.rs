use vstd::prelude::*;

use crate::buffer::Buffer;
use crate::cursor::Cursor;
use crate::text::{
    first_non_whitespace, insert_char_at, lemma_first_non_whitespace_from_bounds, join_line_to_previous, last_col, lines_well_formed,
    remove_char_at, split_line_at,
};

verus! {

/// How many spaces a tab puts in.
pub const TAB_WIDTH: usize = 2;

/// The mode the editor is in: it decides what a key does.
#[derive(Clone, Copy, Debug, PartialEq, Eq, Structural)]
pub enum EditorMode {
    Normal,
    Insert,
    Command,
}

/// What the editor asks of its surroundings after a key.
#[derive(Clone, Copy, Debug, PartialEq, Eq, Structural)]
pub enum EditorAction {
    Quit,
    Write,
}

/// A key the user pressed.
#[derive(Clone, Copy, Debug, PartialEq, Eq, Structural)]
pub enum Key {
    Char(char),
    Esc,
    Enter,
    Backspace,
    Tab,
    Other,
}

/// The name of a mode, as the status line shows it.
pub open spec fn mode_name(mode: EditorMode) -> Seq<char> {
    match mode {
        EditorMode::Normal => "Normal"@,
        EditorMode::Insert => "Insert"@,
        EditorMode::Command => "Command"@,
    }
}

impl EditorMode {
    /// The name of the mode.
    pub fn to_string(&self) -> (s: String)
        ensures
            s@ == mode_name(*self),
    {
        match self {
            EditorMode::Normal => String::from_str("Normal"),
            EditorMode::Insert => String::from_str("Insert"),
            EditorMode::Command => String::from_str("Command"),
        }
    }
}

/// What an editor is, as a value: the buffer's lines, the cursor's row and column, the mode,
/// whether the buffer changed since it was loaded or written, the buffer's path, and the
/// command being typed, if any.
pub struct EditorState {
    pub lines: Seq<Seq<char>>,
    pub row: int,
    pub col: int,
    pub mode: EditorMode,
    pub modified: bool,
    pub path: Option<Seq<char>>,
    pub pending_command: Option<Seq<char>>,
}

/// The cursor stands on its row, at most one column past the row's last character.
pub open spec fn cursor_on_line(s: EditorState) -> bool {
    s.col <= s.lines[s.row].len()
}

/// The lines are well formed and the cursor stands on a row of the buffer, at most one
/// column past that row's last character; or at column 1 of an empty row, where a
/// backspace that joins two empty rows leaves it.
pub open spec fn state_valid(s: EditorState) -> bool {
    &&& lines_well_formed(s.lines)
    &&& 0 <= s.row < s.lines.len()
    &&& 0 <= s.col
    &&& (cursor_on_line(s) || (s.col == 1 && s.lines[s.row].len() == 0))
}

/// A key the editor can handle: a key that edits the text in insert mode needs the cursor
/// on its row, since the buffer has no column past the end of a row to edit at.
pub open spec fn key_allowed(s: EditorState, key: Key) -> bool {
    s.mode == EditorMode::Insert && key != Key::Esc && key != Key::Other ==> cursor_on_line(s)
}

pub open spec fn with_mode(s: EditorState, mode: EditorMode) -> EditorState {
    EditorState { mode, ..s }
}

pub open spec fn with_cursor(s: EditorState, row: int, col: int) -> EditorState {
    EditorState { row, col, ..s }
}

/// The state with new lines, marked as modified; the cursor is not moved.
pub open spec fn with_lines(s: EditorState, lines: Seq<Seq<char>>) -> EditorState {
    EditorState { lines, modified: true, ..s }
}

/// A column kept within a row of `len` characters.
pub open spec fn clamped(col: int, len: int) -> int {
    if col <= len {
        col
    } else {
        len
    }
}

pub open spec fn moved_left(s: EditorState) -> EditorState {
    with_cursor(s, s.row, if s.col > 0 { s.col - 1 } else { 0 })
}

pub open spec fn moved_right(s: EditorState) -> EditorState {
    if s.col < s.lines[s.row].len() {
        with_cursor(s, s.row, s.col + 1)
    } else {
        s
    }
}

pub open spec fn moved_up(s: EditorState) -> EditorState {
    if s.row > 0 {
        with_cursor(s, s.row - 1, clamped(s.col, s.lines[s.row - 1].len() as int))
    } else {
        s
    }
}

pub open spec fn moved_down(s: EditorState) -> EditorState {
    if s.row + 1 < s.lines.len() {
        with_cursor(s, s.row + 1, clamped(s.col, s.lines[s.row + 1].len() as int))
    } else {
        s
    }
}

/// `c` goes in at the cursor, and the cursor moves right.
pub open spec fn inserted(s: EditorState, c: char) -> EditorState {
    moved_right(with_lines(s, insert_char_at(s.lines, c, s.row, s.col)))
}

/// `c` goes in at the cursor `n` times, each time as `inserted` says.
pub open spec fn inserted_times(s: EditorState, c: char, n: nat) -> EditorState
    decreases n,
{
    if n == 0 {
        s
    } else {
        inserted(inserted_times(s, c, (n - 1) as nat), c)
    }
}

/// The line is cut at the cursor, and the cursor goes to the start of the new line.
pub open spec fn entered(s: EditorState) -> EditorState {
    with_cursor(with_lines(s, split_line_at(s.lines, s.row, s.col)), s.row + 1, 0)
}

/// At the start of the buffer nothing happens; at the start of a line, the line is appended
/// to the one above and the cursor goes one column past the last column of the line above;
/// elsewhere the character before
/// the cursor is taken out and the cursor moves left.
pub open spec fn backspaced(s: EditorState) -> EditorState {
    if s.row == 0 && s.col == 0 {
        s
    } else if s.col == 0 {
        with_cursor(
            with_lines(s, join_line_to_previous(s.lines, s.row)),
            s.row - 1,
            last_col(s.lines[s.row - 1]) + 1,
        )
    } else {
        with_cursor(with_lines(s, remove_char_at(s.lines, s.row, s.col - 1)), s.row, s.col - 1)
    }
}

/// What a key does in normal mode: commands, mode switches and motions; the text never changes.
pub open spec fn normal_step(s: EditorState, key: Key) -> (EditorState, Option<EditorAction>) {
    match key {
        Key::Char(c) => {
            if c == 'w' {
                (s, Some(EditorAction::Write))
            } else if c == 'q' {
                (s, Some(EditorAction::Quit))
            } else if c == 'i' {
                (with_mode(s, EditorMode::Insert), None)
            } else if c == ':' {
                (with_mode(s, EditorMode::Command), None)
            } else if c == 'h' {
                (moved_left(s), None)
            } else if c == 'j' {
                (moved_down(s), None)
            } else if c == 'k' {
                (moved_up(s), None)
            } else if c == 'l' {
                (moved_right(s), None)
            } else if c == '0' {
                (with_cursor(s, s.row, 0), None)
            } else if c == '^' {
                (with_cursor(s, s.row, first_non_whitespace(s.lines[s.row])), None)
            } else if c == '$' {
                (with_cursor(s, s.row, last_col(s.lines[s.row])), None)
            } else {
                (s, None)
            }
        },
        _ => (s, None),
    }
}

/// What a key does in insert mode: it edits the text, or Esc goes back to normal mode.
pub open spec fn insert_step(s: EditorState, key: Key) -> EditorState {
    match key {
        Key::Esc => with_mode(s, EditorMode::Normal),
        Key::Backspace => backspaced(s),
        Key::Enter => entered(s),
        Key::Tab => inserted_times(s, ' ', TAB_WIDTH as nat),
        Key::Char(c) => inserted(s, c),
        Key::Other => s,
    }
}

/// What a key does in command mode: Esc goes back to normal mode, other keys do nothing.
pub open spec fn command_step(s: EditorState, key: Key) -> EditorState {
    match key {
        Key::Esc => with_mode(s, EditorMode::Normal),
        _ => s,
    }
}

/// The editor's state after a key, and the action the key asks for.
pub open spec fn step(s: EditorState, key: Key) -> (EditorState, Option<EditorAction>) {
    match s.mode {
        EditorMode::Normal => normal_step(s, key),
        EditorMode::Insert => (insert_step(s, key), None),
        EditorMode::Command => (command_step(s, key), None),
    }
}

/// A modal text editor: a buffer, a cursor in it, and the mode that decides what keys do.
pub struct Editor {
    buffer: Buffer,
    cursor: Cursor,
    mode: EditorMode,
    pending_command: Option<String>,
}

impl View for Editor {
    type V = EditorState;

    closed spec fn view(&self) -> EditorState {
        EditorState {
            lines: self.buffer@,
            row: self.cursor.row() as int,
            col: self.cursor.col() as int,
            mode: self.mode,
            modified: self.buffer.is_modified(),
            path: self.buffer.path_view(),
            pending_command: match self.pending_command {
                Some(c) => Some(c@),
                None => None,
            },
        }
    }
}

impl Editor {
    /// The editor is in a valid state: its cursor stands within its buffer.
    pub open spec fn inv(&self) -> bool {
        state_valid(self@)
    }

    /// An editor on `buffer`, in normal mode, with the cursor at the start of the buffer.
    pub fn new(buffer: Buffer) -> (e: Editor)
        requires
            buffer.wf(),
        ensures
            e.inv(),
            e@ == (EditorState {
                lines: buffer@,
                row: 0,
                col: 0,
                mode: EditorMode::Normal,
                modified: buffer.is_modified(),
                path: buffer.path_view(),
                pending_command: None,
            }),
    {
        Editor { buffer, cursor: Cursor::default(), mode: EditorMode::Normal, pending_command: None }
    }

    /// The buffer being edited.
    pub fn buffer(&self) -> (b: &Buffer)
        ensures
            b@ == self@.lines,
            b.is_modified() == self@.modified,
            b.path_view() == self@.path,
    {
        &self.buffer
    }

    /// The cursor.
    pub fn cursor(&self) -> (c: &Cursor)
        ensures
            c.row() == self@.row,
            c.col() == self@.col,
    {
        &self.cursor
    }

    /// The mode the editor is in.
    pub fn mode(&self) -> (m: &EditorMode)
        ensures
            *m == self@.mode,
    {
        &self.mode
    }

    /// The command being typed in command mode, if any.
    pub fn pending_command(&self) -> (c: Option<&str>)
        ensures
            match c {
                Some(s) => self@.pending_command == Some(s@),
                None => self@.pending_command == None::<Seq<char>>,
            },
    {
        match &self.pending_command {
            Some(c) => Some(c.as_str()),
            None => None,
        }
    }

    /// Whether the editor can handle `key` in its present state (see `key_allowed`).
    pub fn can_handle(&self, key: &Key) -> (b: bool)
        requires
            self.inv(),
        ensures
            b == key_allowed(self@, *key),
    {
        match (self.mode, key) {
            (EditorMode::Insert, Key::Esc) => true,
            (EditorMode::Insert, Key::Other) => true,
            (EditorMode::Insert, _) => self.cursor.col() <= self.buffer.line_len(self.cursor.row()),
            _ => true,
        }
    }

    /// Records that the buffer was written out: it is no longer modified.
    pub fn written(&mut self)
        requires
            old(self).inv(),
        ensures
            final(self).inv(),
            final(self)@ == (EditorState { modified: false, ..old(self)@ }),
    {
        self.buffer.mark_clean();
    }

    /// Handles one key: updates the editor as `step` says, and returns the action it asks for.
    pub fn handle_keypress(&mut self, key: Key) -> (action: Option<EditorAction>)
        requires
            old(self).inv(),
            key_allowed(old(self)@, key),
        ensures
            final(self).inv(),
            (final(self)@, action) == step(old(self)@, key),
    {
        match self.mode {
            EditorMode::Normal => self.handle_normal_mode_keypress(key),
            EditorMode::Insert => self.handle_insert_mode_keypress(key),
            EditorMode::Command => self.handle_command_mode_keypress(key),
        }
    }

    fn handle_normal_mode_keypress(&mut self, key: Key) -> (action: Option<EditorAction>)
        requires
            old(self).inv(),
            old(self)@.mode == EditorMode::Normal,
        ensures
            final(self).inv(),
            (final(self)@, action) == normal_step(old(self)@, key),
    {
        match key {
            // Commands
            Key::Char('w') => Some(EditorAction::Write),
            Key::Char('q') => Some(EditorAction::Quit),
            Key::Char('i') => {
                self.mode = EditorMode::Insert;
                None
            },
            Key::Char(':') => {
                self.mode = EditorMode::Command;
                None
            },
            // Motions
            Key::Char('h') => {
                self.move_cursor_left();
                None
            },
            Key::Char('j') => {
                self.move_cursor_down();
                None
            },
            Key::Char('k') => {
                self.move_cursor_up();
                None
            },
            Key::Char('l') => {
                self.move_cursor_right();
                None
            },
            Key::Char('0') => {
                self.move_cursor_to_start_of_line(self.cursor.row());
                None
            },
            Key::Char('^') => {
                self.move_cursor_to_first_non_whitespace_char(self.cursor.row());
                None
            },
            Key::Char('$') => {
                self.move_cursor_to_end_of_line(self.cursor.row());
                None
            },
            _ => None,
        }
    }

    fn handle_command_mode_keypress(&mut self, key: Key) -> (action: Option<EditorAction>)
        requires
            old(self).inv(),
            old(self)@.mode == EditorMode::Command,
        ensures
            final(self).inv(),
            final(self)@ == command_step(old(self)@, key),
            action == None::<EditorAction>,
    {
        match key {
            Key::Esc => {
                self.mode = EditorMode::Normal;
                None
            },
            _ => None,
        }
    }

    fn handle_insert_mode_keypress(&mut self, key: Key) -> (action: Option<EditorAction>)
        requires
            old(self).inv(),
            old(self)@.mode == EditorMode::Insert,
            key_allowed(old(self)@, key),
        ensures
            final(self).inv(),
            final(self)@ == insert_step(old(self)@, key),
            action == None::<EditorAction>,
    {
        match key {
            Key::Esc => {
                self.mode = EditorMode::Normal;
                None
            },
            Key::Backspace => {
                self.backspace();
                None
            },
            Key::Enter => {
                self.enter();
                None
            },
            Key::Tab => {
                self.tab();
                None
            },
            Key::Char(c) => {
                self.insert_char(c);
                None
            },
            _ => None,
        }
    }

    fn move_cursor_up(&mut self)
        requires
            old(self).inv(),
        ensures
            final(self).inv(),
            final(self)@ == moved_up(old(self)@),
    {
        self.cursor.up_in(&self.buffer);
    }

    fn move_cursor_down(&mut self)
        requires
            old(self).inv(),
        ensures
            final(self).inv(),
            final(self)@ == moved_down(old(self)@),
    {
        self.cursor.down_in(&self.buffer);
    }

    fn move_cursor_left(&mut self)
        requires
            old(self).inv(),
        ensures
            final(self).inv(),
            final(self)@ == moved_left(old(self)@),
    {
        self.cursor.left();
    }

    fn move_cursor_right(&mut self)
        requires
            old(self).inv(),
        ensures
            final(self).inv(),
            final(self)@ == moved_right(old(self)@),
    {
        self.cursor.right_in(&self.buffer);
    }

    fn move_cursor_to_end_of_line(&mut self, row: usize)
        requires
            old(self).inv(),
            row == old(self)@.row,
        ensures
            final(self).inv(),
            final(self)@ == with_cursor(old(self)@, row as int, last_col(old(self)@.lines[row as int])),
    {
        let col = self.buffer.max_col(row);
        self.cursor.move_to_col(col);
    }

    fn move_cursor_to_start_of_line(&mut self, row: usize)
        requires
            old(self).inv(),
            row < old(self)@.lines.len(),
        ensures
            final(self).inv(),
            final(self)@ == with_cursor(old(self)@, row as int, 0),
    {
        self.cursor.move_to(row, 0);
    }

    fn move_cursor_to_first_non_whitespace_char(&mut self, row: usize)
        requires
            old(self).inv(),
            row < old(self)@.lines.len(),
        ensures
            final(self).inv(),
            final(self)@ == with_cursor(
                old(self)@,
                row as int,
                first_non_whitespace(old(self)@.lines[row as int]),
            ),
    {
        let col = self.buffer.first_non_whitespace_col(row);
        proof {
            lemma_first_non_whitespace_from_bounds(self@.lines[row as int], 0);
        }
        self.cursor.move_to(row, col);
    }

    fn insert_char(&mut self, c: char)
        requires
            old(self).inv(),
            cursor_on_line(old(self)@),
        ensures
            final(self).inv(),
            final(self)@ == inserted(old(self)@, c),
            cursor_on_line(final(self)@),
    {
        self.buffer.insert_at_position(c, self.cursor.row(), self.cursor.col());
        self.cursor.right_in(&self.buffer);
    }

    fn enter(&mut self)
        requires
            old(self).inv(),
            cursor_on_line(old(self)@),
        ensures
            final(self).inv(),
            final(self)@ == entered(old(self)@),
    {
        let row = self.cursor.row();
        let col = self.cursor.col();

        self.buffer.split_line(row, col);
        proof {
            self.buffer.lemma_line_count_fits();
        }
        self.move_cursor_to_start_of_line(row + 1);
    }

    fn tab(&mut self)
        requires
            old(self).inv(),
            cursor_on_line(old(self)@),
        ensures
            final(self).inv(),
            final(self)@ == inserted_times(old(self)@, ' ', TAB_WIDTH as nat),
    {
        for i in 0..TAB_WIDTH
            invariant
                self.inv(),
                cursor_on_line(self@),
                self@ == inserted_times(old(self)@, ' ', i as nat),
        {
            self.insert_char(' ');
        }
    }

    fn backspace(&mut self)
        requires
            old(self).inv(),
            cursor_on_line(old(self)@),
        ensures
            final(self).inv(),
            final(self)@ == backspaced(old(self)@),
    {
        match (self.cursor.row(), self.cursor.col()) {
            (0, 0) => return ,
            (_, 0) => {
                self.backspace_at_start_of_line();
            },
            _ => {
                self.backspace_char();
            },
        }
    }

    fn backspace_at_start_of_line(&mut self)
        requires
            old(self).inv(),
            old(self)@.row > 0,
            old(self)@.col == 0,
        ensures
            final(self).inv(),
            final(self)@ == backspaced(old(self)@),
    {
        let row = self.cursor.row();
        // max_col is the index of the end of the previous line; one more places the cursor
        // at the end of that line after joining.
        let previous_line_length = self.buffer.max_col(row - 1) + 1;
        self.buffer.join_lines(row);
        self.cursor.move_to(row - 1, previous_line_length);
    }

    fn backspace_char(&mut self)
        requires
            old(self).inv(),
            cursor_on_line(old(self)@),
            old(self)@.col > 0,
        ensures
            final(self).inv(),
            final(self)@ == backspaced(old(self)@),
    {
        self.buffer.remove_at_position(self.cursor.row(), self.cursor.col() - 1);
        self.cursor.left();
    }
}

} // verus!
