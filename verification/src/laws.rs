use vstd::prelude::*;

use crate::editor::{
    cursor_on_line, inserted, mode_name, inserted_times, key_allowed, state_valid, step, EditorAction, EditorMode, EditorState, Key,
    TAB_WIDTH,
};
use crate::text::{
    insert_char_at, is_whitespace, join_line_to_previous, join_with_newlines,
    law_first_non_whitespace_from, law_insert_char_edits_text, law_join_line_edits_text,
    law_remove_char_edits_text, lemma_first_non_whitespace_from_bounds,
    lemma_insert_char_well_formed, lemma_join_line_well_formed, lemma_remove_char_well_formed,
    lemma_split_line_well_formed, lemma_text_before_next_line, lemma_text_offset_bounds,
    text_offset,
};

verus! {

/// Typing a character with the cursor on its row keeps the editor's state valid and the
/// cursor on its row.
pub proof fn lemma_inserted_valid(s: EditorState, c: char)
    requires
        state_valid(s),
        cursor_on_line(s),
    ensures
        state_valid(inserted(s, c)),
        cursor_on_line(inserted(s, c)),
{
    lemma_insert_char_well_formed(s.lines, c, s.row, s.col);
    let lines = insert_char_at(s.lines, c, s.row, s.col);
    if c == '\n' {
        lemma_split_line_well_formed(s.lines, s.row, s.col);
    } else {
        assert(lines[s.row].len() == s.lines[s.row].len() + 1);
    }
}

/// Typing a character `n` times with the cursor on its row keeps the editor's state valid
/// and the cursor on its row.
pub proof fn lemma_inserted_times_valid(s: EditorState, c: char, n: nat)
    requires
        state_valid(s),
        cursor_on_line(s),
    ensures
        state_valid(inserted_times(s, c, n)),
        cursor_on_line(inserted_times(s, c, n)),
    decreases n,
{
    if n > 0 {
        lemma_inserted_times_valid(s, c, (n - 1) as nat);
        lemma_inserted_valid(inserted_times(s, c, (n - 1) as nat), c);
    }
}

/// Whatever key the editor can handle is pressed, the editor's state stays valid: the lines
/// stay well formed and the cursor stays within the buffer.
pub proof fn law_step_keeps_state_valid(s: EditorState, key: Key)
    requires
        state_valid(s),
        key_allowed(s, key),
    ensures
        state_valid(step(s, key).0),
{
    match s.mode {
        EditorMode::Normal => {
            lemma_first_non_whitespace_from_bounds(s.lines[s.row], 0);
        },
        EditorMode::Insert => {
            match key {
                Key::Backspace => {
                    if s.row == 0 && s.col == 0 {
                    } else if s.col == 0 {
                        lemma_join_line_well_formed(s.lines, s.row);
                    } else {
                        lemma_remove_char_well_formed(s.lines, s.row, s.col - 1);
                    }
                },
                Key::Enter => {
                    lemma_split_line_well_formed(s.lines, s.row, s.col);
                },
                Key::Tab => {
                    lemma_inserted_times_valid(s, ' ', TAB_WIDTH as nat);
                },
                Key::Char(c) => {
                    lemma_inserted_valid(s, c);
                },
                _ => {},
            }
        },
        EditorMode::Command => {},
    }
}

/// In normal mode no key changes the text, the modified flag or the path; only the cursor
/// and the mode may change.
pub proof fn law_normal_mode_keeps_text(s: EditorState, key: Key)
    requires
        s.mode == EditorMode::Normal,
    ensures
        step(s, key).0.lines == s.lines,
        step(s, key).0.modified == s.modified,
        step(s, key).0.path == s.path,
{
}

/// In command mode no key changes the text or the cursor.
pub proof fn law_command_mode_keeps_text(s: EditorState, key: Key)
    requires
        s.mode == EditorMode::Command,
    ensures
        step(s, key).0.lines == s.lines,
        step(s, key).0.row == s.row,
        step(s, key).0.col == s.col,
        step(s, key).0.modified == s.modified,
{
}

/// Only normal mode asks for actions: `w` asks to write and `q` to quit, and neither
/// changes the editor.
pub proof fn law_actions(s: EditorState, key: Key)
    ensures
        step(s, key).1 == Some(EditorAction::Write) <==> s.mode == EditorMode::Normal && key
            == Key::Char('w'),
        step(s, key).1 == Some(EditorAction::Quit) <==> s.mode == EditorMode::Normal && key
            == Key::Char('q'),
        step(s, key).1 is Some ==> step(s, key).0 == s,
{
}

/// Entering insert mode with `i`, or command mode with `:`, and leaving it with Esc gives
/// back the editor as it was.
pub proof fn law_escape_undoes_mode_switch(s: EditorState)
    requires
        s.mode == EditorMode::Normal,
    ensures
        step(step(s, Key::Char('i')).0, Key::Esc).0 == s,
        step(step(s, Key::Char(':')).0, Key::Esc).0 == s,
{
}

/// In insert mode, a backspace right after typing a character other than a newline takes
/// it out again: the text and the cursor are as before, and the buffer counts as modified.
pub proof fn law_backspace_undoes_typing(s: EditorState, c: char)
    requires
        state_valid(s),
        cursor_on_line(s),
        s.mode == EditorMode::Insert,
        c != '\n',
    ensures
        step(s, Key::Char(c)).1 == None::<EditorAction>,
        step(step(s, Key::Char(c)).0, Key::Backspace).0 == (EditorState { modified: true, ..s }),
{
    let t = step(s, Key::Char(c)).0;
    let line = s.lines[s.row];
    assert(t.lines[s.row] == line.insert(s.col, c));
    assert(t.col == s.col + 1);
    assert(line.insert(s.col, c).remove(s.col) =~= line);
    assert(t.lines.update(s.row, t.lines[s.row].remove(s.col)) =~= s.lines);
}

/// In insert mode, away from the start of a row, a backspace right after Enter joins the two
/// lines again: the text and the cursor are as before, and the buffer counts as modified.
pub proof fn law_backspace_undoes_enter(s: EditorState)
    requires
        state_valid(s),
        cursor_on_line(s),
        0 < s.col,
        s.mode == EditorMode::Insert,
    ensures
        step(step(s, Key::Enter).0, Key::Backspace).0 == (EditorState { modified: true, ..s }),
{
    let t = step(s, Key::Enter).0;
    let line = s.lines[s.row];
    lemma_split_line_well_formed(s.lines, s.row, s.col);
    assert(t.row == s.row + 1 && t.col == 0);
    assert(line.take(s.col) + line.skip(s.col) =~= line);
    assert(join_line_to_previous(t.lines, t.row) =~= s.lines);
}

/// In insert mode, typing a character puts it into the buffer's text at the cursor;
/// for any character but a newline, the cursor then stands just after it.
pub proof fn law_typing_edits_text(s: EditorState, c: char)
    requires
        state_valid(s),
        cursor_on_line(s),
        s.mode == EditorMode::Insert,
    ensures
        join_with_newlines(step(s, Key::Char(c)).0.lines) == join_with_newlines(s.lines).insert(
            text_offset(s.lines, s.row, s.col),
            c,
        ),
        c != '\n' ==> text_offset(
            step(s, Key::Char(c)).0.lines,
            step(s, Key::Char(c)).0.row,
            step(s, Key::Char(c)).0.col,
        ) == text_offset(s.lines, s.row, s.col) + 1,
{
    law_insert_char_edits_text(s.lines, c, s.row, s.col);
    let t = step(s, Key::Char(c)).0;
    if c != '\n' {
        assert(t.lines.take(s.row) =~= s.lines.take(s.row));
        assert(t.col == s.col + 1);
    }
}

/// In insert mode, Enter puts a newline into the buffer's text at the cursor, and the
/// cursor then stands just after it.
pub proof fn law_enter_edits_text(s: EditorState)
    requires
        state_valid(s),
        cursor_on_line(s),
        s.mode == EditorMode::Insert,
    ensures
        join_with_newlines(step(s, Key::Enter).0.lines) == join_with_newlines(s.lines).insert(
            text_offset(s.lines, s.row, s.col),
            '\n',
        ),
        text_offset(step(s, Key::Enter).0.lines, step(s, Key::Enter).0.row, step(s, Key::Enter).0.col)
            == text_offset(s.lines, s.row, s.col) + 1,
{
    law_insert_char_edits_text(s.lines, '\n', s.row, s.col);
    let t = step(s, Key::Enter).0;
    lemma_split_line_well_formed(s.lines, s.row, s.col);
    lemma_text_before_next_line(t.lines, s.row + 1);
    assert(t.lines.take(s.row) =~= s.lines.take(s.row));
}

/// In insert mode, a backspace anywhere but at the start of the buffer takes out of the
/// buffer's text the character just before the cursor; at the start of the buffer it changes
/// nothing. The cursor then stands where that character was, unless the backspace joined a
/// row to an empty row above it: there it stands one column further on.
pub proof fn law_backspace_edits_text(s: EditorState)
    requires
        state_valid(s),
        cursor_on_line(s),
        s.mode == EditorMode::Insert,
    ensures
        s.row == 0 && s.col == 0 ==> step(s, Key::Backspace).0 == s,
        !(s.row == 0 && s.col == 0) ==> {
            let t = step(s, Key::Backspace).0;
            &&& join_with_newlines(t.lines) == join_with_newlines(s.lines).remove(
                text_offset(s.lines, s.row, s.col) - 1,
            )
            &&& text_offset(t.lines, t.row, t.col) == text_offset(s.lines, s.row, s.col) - 1 + (
            if s.col == 0 && s.lines[s.row - 1].len() == 0 {
                1int
            } else {
                0int
            })
        },
{
    let t = step(s, Key::Backspace).0;
    if s.row == 0 && s.col == 0 {
    } else if s.col == 0 {
        law_join_line_edits_text(s.lines, s.row);
        lemma_text_before_next_line(s.lines, s.row);
        assert(t.lines.take(s.row - 1) =~= s.lines.take(s.row - 1));
    } else {
        law_remove_char_edits_text(s.lines, s.row, s.col - 1);
        assert(t.lines.take(s.row) =~= s.lines.take(s.row));
    }
}

/// In normal mode `j` moves to the next row, if there is one, keeping the column where the
/// new row is long enough and going to the new row's end where it is shorter; on the last
/// row it does nothing. `k` does the same towards the previous row. Neither changes the text
/// or the mode.
pub proof fn law_vertical_motions(s: EditorState)
    requires
        state_valid(s),
        s.mode == EditorMode::Normal,
    ensures
        ({
            let d = step(s, Key::Char('j')).0;
            &&& d.lines == s.lines && d.mode == s.mode
            &&& s.row + 1 < s.lines.len() ==> d.row == s.row + 1 && (if s.col
                <= s.lines[s.row + 1].len() {
                d.col == s.col
            } else {
                d.col == s.lines[s.row + 1].len()
            })
            &&& s.row + 1 >= s.lines.len() ==> d.row == s.row && d.col == s.col
        }),
        ({
            let u = step(s, Key::Char('k')).0;
            &&& u.lines == s.lines && u.mode == s.mode
            &&& s.row > 0 ==> u.row == s.row - 1 && (if s.col <= s.lines[s.row - 1].len() {
                u.col == s.col
            } else {
                u.col == s.lines[s.row - 1].len()
            })
            &&& s.row == 0 ==> u.row == s.row && u.col == s.col
        }),
{
}

/// In normal mode `h` moves exactly one column left on the same row, and does nothing at
/// the first column; `l` moves exactly one column right on the same row while the cursor is
/// before the row's end, and does nothing there. Neither changes the text or the mode.
pub proof fn law_horizontal_motions(s: EditorState)
    requires
        state_valid(s),
        s.mode == EditorMode::Normal,
    ensures
        ({
            let h = step(s, Key::Char('h')).0;
            &&& h.lines == s.lines && h.mode == s.mode && h.row == s.row
            &&& s.col > 0 ==> h.col == s.col - 1
            &&& s.col == 0 ==> h.col == 0
        }),
        ({
            let l = step(s, Key::Char('l')).0;
            &&& l.lines == s.lines && l.mode == s.mode && l.row == s.row
            &&& s.col < s.lines[s.row].len() ==> l.col == s.col + 1
            &&& s.col >= s.lines[s.row].len() ==> l.col == s.col
        }),
{
}

/// In normal mode `0`, `^` and `$` keep the row and the text: `0` goes to the first column;
/// `$` to the row's last character (the first column on an empty row); `^` to the first
/// character that is not white space, with only white space before it, or, on a row of
/// white space only, to its last column.
pub proof fn law_line_motions(s: EditorState)
    requires
        state_valid(s),
        s.mode == EditorMode::Normal,
    ensures
        ({
            let z = step(s, Key::Char('0')).0;
            z.lines == s.lines && z.mode == s.mode && z.row == s.row && z.col == 0
        }),
        ({
            let e = step(s, Key::Char('$')).0;
            let line = s.lines[s.row];
            &&& e.lines == s.lines && e.mode == s.mode && e.row == s.row
            &&& e.col == if line.len() == 0 {
                0
            } else {
                line.len() - 1
            }
        }),
        ({
            let c = step(s, Key::Char('^')).0;
            let line = s.lines[s.row];
            &&& c.lines == s.lines && c.mode == s.mode && c.row == s.row
            &&& {
                ||| (0 <= c.col < line.len() && !is_whitespace(line[c.col]) && forall|j: int|
                    0 <= j < c.col ==> is_whitespace(#[trigger] line[j]))
                ||| ((forall|j: int| 0 <= j < line.len() ==> is_whitespace(#[trigger] line[j]))
                    && c.col == (if line.len() == 0 {
                    0
                } else {
                    line.len() - 1
                }))
            }
        }),
{
    law_first_non_whitespace_from(s.lines[s.row], 0);
}

/// In insert mode, Tab puts `TAB_WIDTH` spaces into the buffer's text at the cursor, and the
/// cursor then stands just after them.
pub proof fn law_tab_edits_text(s: EditorState)
    requires
        state_valid(s),
        cursor_on_line(s),
        s.mode == EditorMode::Insert,
    ensures
        ({
            let t = step(s, Key::Tab).0;
            let text = join_with_newlines(s.lines);
            let at = text_offset(s.lines, s.row, s.col);
            &&& 0 <= at <= text.len()
            &&& join_with_newlines(t.lines) == text.take(at) + Seq::new(
                TAB_WIDTH as nat,
                |i: int| ' ',
            ) + text.skip(at)
            &&& text_offset(t.lines, t.row, t.col) == at + TAB_WIDTH
            &&& t.mode == EditorMode::Insert
        }),
{
    let text = join_with_newlines(s.lines);
    let at = text_offset(s.lines, s.row, s.col);
    lemma_text_offset_bounds(s.lines, s.row, s.col);
    let s1 = inserted(s, ' ');
    assert(inserted_times(s, ' ', 1) == s1) by {
        assert(inserted_times(s, ' ', 0) == s);
    }
    assert(step(s, Key::Char(' ')).0 == s1);
    law_typing_edits_text(s, ' ');
    lemma_inserted_valid(s, ' ');
    assert(step(s1, Key::Char(' ')).0 == inserted(s1, ' '));
    law_typing_edits_text(s1, ' ');
    let t = step(s, Key::Tab).0;
    assert(t == inserted(s1, ' '));
    assert(join_with_newlines(t.lines) =~= text.take(at) + Seq::new(
        TAB_WIDTH as nat,
        |i: int| ' ',
    ) + text.skip(at));
}

/// In insert mode a key that is not one the editor knows changes nothing.
pub proof fn law_insert_mode_ignores_other_keys(s: EditorState)
    requires
        s.mode == EditorMode::Insert,
    ensures
        step(s, Key::Other) == (s, None::<EditorAction>),
{
}

/// The modes are named "Normal", "Insert" and "Command".
pub proof fn law_mode_names(mode: EditorMode)
    ensures
        mode_name(mode) == match mode {
            EditorMode::Normal => "Normal"@,
            EditorMode::Insert => "Insert"@,
            EditorMode::Command => "Command"@,
        },
{
}

} // verus!
