use vstd::prelude::*;

use crate::buffer::Buffer;

verus! {

/// A position in a buffer: a row (line index) and a column (character index).
pub struct Cursor {
    row: usize,
    col: usize,
}

impl Cursor {
    pub closed spec fn spec_row(&self) -> usize {
        self.row
    }

    pub closed spec fn spec_col(&self) -> usize {
        self.col
    }

    pub fn new(row: usize, col: usize) -> (c: Cursor)
        ensures
            c.row() == row,
            c.col() == col,
    {
        Cursor { row, col }
    }

    #[verifier::when_used_as_spec(spec_row)]
    pub fn row(&self) -> (r: usize)
        ensures
            r == self.spec_row(),
    {
        self.row
    }

    #[verifier::when_used_as_spec(spec_col)]
    pub fn col(&self) -> (c: usize)
        ensures
            c == self.spec_col(),
    {
        self.col
    }

    /// Moves one column to the left; at the first column the cursor stays put.
    pub fn left(&mut self)
        ensures
            final(self).row() == old(self).row(),
            final(self).col() == if old(self).col() == 0 { 0 } else { (old(self).col() - 1) as usize },
    {
        if self.col == 0 {
            return;
        }
        self.col -= 1;
    }

    /// Moves one row down; the column is kept.
    pub fn down(&mut self)
        requires
            old(self).row() < usize::MAX,
        ensures
            final(self).row() == old(self).row() + 1,
            final(self).col() == old(self).col(),
    {
        self.row += 1;
    }

    /// Moves one row up; the column is kept.
    pub fn up(&mut self)
        requires
            old(self).row() >= 1,
        ensures
            final(self).row() == old(self).row() - 1,
            final(self).col() == old(self).col(),
    {
        self.row -= 1;
    }

    /// Moves one column to the right.
    pub fn right(&mut self)
        requires
            old(self).col() < usize::MAX,
        ensures
            final(self).row() == old(self).row(),
            final(self).col() == old(self).col() + 1,
    {
        self.col += 1;
    }

    /// Moves one row up within `buffer`, if there is a row above; the column is kept, but no further
    /// than the end of the new row.
    pub fn up_in(&mut self, buffer: &Buffer)
        requires
            old(self).row() < buffer@.len(),
        ensures
            if old(self).row() > 0 {
                &&& final(self).row() == old(self).row() - 1
                &&& final(self).col() == clamp_col(old(self).col(), buffer@[final(self).row() as int].len())
            } else {
                *final(self) == *old(self)
            },
    {
        if self.row > 0 {
            self.row -= 1;
            let len = buffer.line_len(self.row);
            if self.col > len {
                self.col = len;
            }
        }
    }

    /// Moves one row down within `buffer`, if there is a row below; the column is kept, but no further
    /// than the end of the new row.
    pub fn down_in(&mut self, buffer: &Buffer)
        requires
            old(self).row() < buffer@.len(),
        ensures
            if old(self).row() + 1 < buffer@.len() {
                &&& final(self).row() == old(self).row() + 1
                &&& final(self).col() == clamp_col(old(self).col(), buffer@[final(self).row() as int].len())
            } else {
                *final(self) == *old(self)
            },
    {
        if self.row < buffer.line_count() - 1 {
            self.row += 1;
            let len = buffer.line_len(self.row);
            if self.col > len {
                self.col = len;
            }
        }
    }

    /// Moves one column to the right within `buffer`, if the cursor is not yet past the end
    /// of its row.
    pub fn right_in(&mut self, buffer: &Buffer)
        requires
            old(self).row() < buffer@.len(),
        ensures
            final(self).row() == old(self).row(),
            final(self).col() == if old(self).col() < buffer@[old(self).row() as int].len() {
                old(self).col() + 1
            } else {
                old(self).col() as int
            },
    {
        if self.col < buffer.line_len(self.row) {
            self.col += 1;
        }
    }

    /// Moves to the given row and column.
    pub fn move_to(&mut self, row: usize, col: usize)
        ensures
            final(self).row() == row,
            final(self).col() == col,
    {
        self.row = row;
        self.col = col;
    }

    /// Moves to the given column of the current row.
    pub fn move_to_col(&mut self, col: usize)
        ensures
            final(self).row() == old(self).row(),
            final(self).col() == col,
    {
        self.col = col;
    }
}

impl Default for Cursor {
    /// The cursor at the first column of the first row.
    fn default() -> (c: Cursor)
        ensures
            c.row() == 0,
            c.col() == 0,
    {
        Cursor { row: 0, col: 0 }
    }
}

/// Moving left after moving right gives back the cursor as it was: `right` adds one to the
/// column and keeps the row, and `left` takes one off a column above 0 and keeps the row.
pub proof fn law_left_undoes_right(start: Cursor, moved: Cursor, back: Cursor)
    requires
        moved.row() == start.row(),
        moved.col() == start.col() + 1,
        back.row() == moved.row(),
        back.col() == if moved.col() == 0 {
            0
        } else {
            (moved.col() - 1) as usize
        },
    ensures
        back.row() == start.row(),
        back.col() == start.col(),
{
}

/// A column kept within a row of `len` characters: no further than one past its last character.
pub open spec fn clamp_col(col: usize, len: nat) -> usize {
    if col <= len {
        col
    } else {
        len as usize
    }
}

} // verus!
