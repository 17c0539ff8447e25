use vstd::prelude::*;

use crate::text::{
    char_is_whitespace, first_non_whitespace, first_non_whitespace_from, insert_char_at,
    join_line_to_previous, join_with_newlines, last_col, lemma_insert_char_well_formed,
    lemma_join_line_well_formed, lemma_remove_char_well_formed, lemma_split_line_well_formed,
    lemma_split_well_formed, lines_well_formed, remove_char_at, split_at_newlines, split_line_at,
};

verus! {

/// Appending a character to a `String`: std documents `String::push` as
/// appending the given char to the end of the string.
pub assume_specification[ String::push ](s: &mut String, ch: char)
    ensures
        final(s)@ == old(s)@.push(ch),
;

/// The text being edited, held as its lines, with a flag that says whether it has
/// changed since it was loaded or last written, and the path it belongs to, if any.
pub struct Buffer {
    lines: Vec<Vec<char>>,
    modified: bool,
    path: Option<String>,
}

spec fn lines_view(lines: Seq<Vec<char>>) -> Seq<Seq<char>> {
    lines.map_values(|l: Vec<char>| l@)
}

impl View for Buffer {
    type V = Seq<Seq<char>>;

    closed spec fn view(&self) -> Seq<Seq<char>> {
        lines_view(self.lines@)
    }
}

/// Builds a `String` that holds the given characters.
fn string_of(chars: &Vec<char>) -> (s: String)
    ensures
        s@ == chars@,
{
    let mut s = String::new();
    let mut j: usize = 0;
    while j < chars.len()
        invariant
            j <= chars@.len(),
            s@ == chars@.take(j as int),
        decreases chars@.len() - j,
    {
        s.push(chars[j]);
        assert(chars@.take(j + 1) =~= chars@.take(j as int).push(chars@[j as int]));
        j += 1;
    }
    assert(chars@.take(chars@.len() as int) =~= chars@);
    s
}

impl Buffer {
    /// The buffer's lines are well formed: there is at least one, and none holds a newline.
    pub open spec fn wf(&self) -> bool {
        lines_well_formed(self@)
    }

    pub closed spec fn spec_is_modified(&self) -> bool {
        self.modified
    }

    /// The path the buffer belongs to, as characters.
    pub closed spec fn path_view(&self) -> Option<Seq<char>> {
        match self.path {
            Some(p) => Some(p@),
            None => None,
        }
    }

    /// A buffer holding `contents`, cut into lines at each newline, unmodified and with no path.
    pub fn new(contents: &str) -> (b: Buffer)
        ensures
            b.wf(),
            b@ == split_at_newlines(contents@),
            !b.is_modified(),
            b.path_view() == None::<Seq<char>>,
    {
        Buffer::with_path(contents, None)
    }

    /// A buffer holding `contents`, cut into lines at each newline, unmodified and with the
    /// given path.
    pub fn with_path(contents: &str, path: Option<String>) -> (b: Buffer)
        ensures
            b.wf(),
            b@ == split_at_newlines(contents@),
            !b.is_modified(),
            b.path_view() == (match path {
                Some(p) => Some(p@),
                None => None::<Seq<char>>,
            }),
    {
        let mut lines: Vec<Vec<char>> = Vec::new();
        let mut cur: Vec<char> = Vec::new();
        for c in it: contents.chars()
            invariant
                it.seq() == contents@,
                lines_view(lines@).push(cur@) == split_at_newlines(it.seq().take(it.index() as int)),
        {
            let ghost done = it.seq().take(it.index() as int);
            let ghost next = it.seq().take(it.index() + 1);
            let ghost before = lines_view(lines@).push(cur@);
            assert(next.drop_last() =~= done);
            assert(next.last() == c);
            if c == '\n' {
                lines.push(cur);
                cur = Vec::new();
                assert(lines_view(lines@).push(cur@) =~= before.push(Seq::<char>::empty()));
            } else {
                cur.push(c);
                assert(lines_view(lines@).push(cur@) =~= before.update(
                    before.len() - 1,
                    before.last().push(c),
                ));
            }
        }
        assert(contents@.take(contents@.len() as int) =~= contents@);
        lines.push(cur);
        assert(lines_view(lines@) =~= split_at_newlines(contents@));
        proof {
            lemma_split_well_formed(contents@);
        }
        Buffer { lines, modified: false, path }
    }

    /// Whether the buffer changed since it was loaded or last written.
    #[verifier::when_used_as_spec(spec_is_modified)]
    pub fn is_modified(&self) -> (m: bool)
        ensures
            m == self.spec_is_modified(),
    {
        self.modified
    }

    /// Records that the buffer's contents were written out.
    pub fn mark_clean(&mut self)
        ensures
            final(self)@ == old(self)@,
            !final(self).is_modified(),
            final(self).path_view() == old(self).path_view(),
    {
        self.modified = false;
    }

    /// The path the buffer belongs to, if any.
    pub fn path(&self) -> (p: Option<&str>)
        ensures
            match p {
                Some(s) => self.path_view() == Some(s@),
                None => self.path_view() == None::<Seq<char>>,
            },
    {
        match &self.path {
            Some(p) => Some(p.as_str()),
            None => None,
        }
    }

    /// The column of the last character of line `row` (0 on an empty line).
    pub fn max_col(&self, row: usize) -> (c: usize)
        requires
            row < self@.len(),
        ensures
            c == last_col(self@[row as int]),
            c < usize::MAX,
    {
        let len = self.lines[row].len();
        if len == 0 {
            0
        } else {
            len - 1
        }
    }

    /// The column of the first character of line `row` that is not white space,
    /// or the last column where the line is blank.
    pub fn first_non_whitespace_col(&self, row: usize) -> (c: usize)
        requires
            row < self@.len(),
        ensures
            c == first_non_whitespace(self@[row as int]),
    {
        let line = &self.lines[row];
        let mut i: usize = 0;
        while i < line.len()
            invariant
                i <= line@.len(),
                line@ == self@[row as int],
                row < self@.len(),
                first_non_whitespace_from(line@, 0) == first_non_whitespace_from(line@, i as int),
            decreases line@.len() - i,
        {
            if !char_is_whitespace(line[i]) {
                return i;
            }
            i += 1;
        }
        self.max_col(row)
    }

    /// Puts `c` in at column `col` of line `row`; a newline cuts the line there in two.
    pub fn insert_at_position(&mut self, c: char, row: usize, col: usize)
        requires
            old(self).wf(),
            row < old(self)@.len(),
            col <= old(self)@[row as int].len(),
        ensures
            final(self).wf(),
            final(self)@ == insert_char_at(old(self)@, c, row as int, col as int),
            final(self).is_modified(),
            final(self).path_view() == old(self).path_view(),
    {
        if c == '\n' {
            self.split_line(row, col);
        } else {
            let ghost before = self@;
            self.lines[row].insert(col, c);
            self.modified = true;
            assert(self@ =~= before.update(row as int, before[row as int].insert(col as int, c)));
            proof {
                lemma_insert_char_well_formed(before, c, row as int, col as int);
            }
        }
    }

    /// Cuts line `row` in two at column `col`: what follows the column becomes a new line.
    pub fn split_line(&mut self, row: usize, col: usize)
        requires
            old(self).wf(),
            row < old(self)@.len(),
            col <= old(self)@[row as int].len(),
        ensures
            final(self).wf(),
            final(self)@ == split_line_at(old(self)@, row as int, col as int),
            final(self).is_modified(),
            final(self).path_view() == old(self).path_view(),
    {
        let ghost before = self@;
        let tail = self.lines[row].split_off(col);
        let count = self.lines.len();
        assert(row < count);
        self.lines.insert(row + 1, tail);
        self.modified = true;
        assert(self@ =~= split_line_at(before, row as int, col as int));
        proof {
            lemma_split_line_well_formed(before, row as int, col as int);
        }
    }

    /// Appends line `row` to line `row - 1`, so that the two become one.
    pub fn join_lines(&mut self, row: usize)
        requires
            old(self).wf(),
            0 < row < old(self)@.len(),
        ensures
            final(self).wf(),
            final(self)@ == join_line_to_previous(old(self)@, row as int),
            final(self).is_modified(),
            final(self).path_view() == old(self).path_view(),
    {
        let ghost before = self@;
        let mut cur = self.lines.remove(row);
        self.lines[row - 1].append(&mut cur);
        self.modified = true;
        assert(self@ =~= join_line_to_previous(before, row as int));
        proof {
            lemma_join_line_well_formed(before, row as int);
        }
    }

    /// Takes out the character at column `col` of line `row`.
    pub fn remove_at_position(&mut self, row: usize, col: usize)
        requires
            old(self).wf(),
            row < old(self)@.len(),
            col < old(self)@[row as int].len(),
        ensures
            final(self).wf(),
            final(self)@ == remove_char_at(old(self)@, row as int, col as int),
            final(self).is_modified(),
            final(self).path_view() == old(self).path_view(),
    {
        let ghost before = self@;
        self.lines[row].remove(col);
        self.modified = true;
        assert(self@ =~= remove_char_at(before, row as int, col as int));
        proof {
            lemma_remove_char_well_formed(before, row as int, col as int);
        }
    }

    /// The number of lines fits in a `usize`.
    pub proof fn lemma_line_count_fits(&self)
        ensures
            self@.len() <= usize::MAX,
    {
        assert(self.lines.len() == self.lines@.len());
    }

    /// The number of lines.
    pub fn line_count(&self) -> (n: usize)
        ensures
            n == self@.len(),
    {
        self.lines.len()
    }

    /// The number of characters on line `row`.
    pub fn line_len(&self, row: usize) -> (n: usize)
        requires
            row < self@.len(),
        ensures
            n == self@[row as int].len(),
    {
        self.lines[row].len()
    }

    /// The text of line `row`.
    pub fn line(&self, row: usize) -> (s: String)
        requires
            row < self@.len(),
        ensures
            s@ == self@[row as int],
    {
        string_of(&self.lines[row])
    }

    /// The text of every line, in order.
    pub fn lines(&self) -> (v: Vec<String>)
        ensures
            v@.len() == self@.len(),
            forall|i: int| 0 <= i < v@.len() ==> #[trigger] v@[i]@ == self@[i],
    {
        let mut v: Vec<String> = Vec::new();
        let mut i: usize = 0;
        while i < self.lines.len()
            invariant
                i <= self@.len(),
                self@.len() == self.lines@.len(),
                v@.len() == i,
                forall|k: int| 0 <= k < i ==> #[trigger] v@[k]@ == self@[k],
            decreases self@.len() - i,
        {
            v.push(self.line(i));
            i += 1;
        }
        v
    }

    /// The whole text: the lines with a newline between each two of them.
    pub fn to_string(&self) -> (s: String)
        requires
            self.wf(),
        ensures
            s@ == join_with_newlines(self@),
    {
        let mut s = String::new();
        let mut i: usize = 0;
        while i < self.lines.len()
            invariant
                i <= self@.len(),
                self@.len() == self.lines@.len(),
                s@ == join_with_newlines(self@.take(i as int)),
            decreases self@.len() - i,
        {
            let line = &self.lines[i];
            let ghost before = s@;
            if i > 0 {
                s.push('\n');
            }
            let mut j: usize = 0;
            while j < line.len()
                invariant
                    j <= line@.len(),
                    s@ == (if i > 0 { before + seq!['\n'] } else { before }) + line@.take(j as int),
                decreases line@.len() - j,
            {
                s.push(line[j]);
                assert(line@.take(j + 1) =~= line@.take(j as int).push(line@[j as int]));
                j += 1;
            }
            assert(line@.take(line@.len() as int) =~= line@);
            assert(self@[i as int] == line@);
            let ghost next = self@.take(i + 1);
            assert(next.drop_last() =~= self@.take(i as int));
            assert(s@ =~= join_with_newlines(next));
            i += 1;
        }
        assert(self@.take(self@.len() as int) =~= self@);
        s
    }
}

} // verus!
