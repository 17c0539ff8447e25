use vstd::prelude::*;

verus! {

/// The lines of a text: the text cut at every newline character.
/// A text with `n` newlines has `n + 1` lines; the empty text has one empty line.
pub open spec fn split_at_newlines(text: Seq<char>) -> Seq<Seq<char>>
    decreases text.len(),
{
    if text.len() == 0 {
        seq![Seq::<char>::empty()]
    } else {
        let prev = split_at_newlines(text.drop_last());
        if text.last() == '\n' {
            prev.push(Seq::<char>::empty())
        } else {
            prev.update(prev.len() - 1, prev.last().push(text.last()))
        }
    }
}

/// The text made of the given lines, with a newline character between each two of them.
pub open spec fn join_with_newlines(lines: Seq<Seq<char>>) -> Seq<char>
    decreases lines.len(),
{
    if lines.len() == 0 {
        Seq::<char>::empty()
    } else if lines.len() == 1 {
        lines[0]
    } else {
        join_with_newlines(lines.drop_last()) + seq!['\n'] + lines.last()
    }
}

/// A line holds no newline character.
pub open spec fn is_line(line: Seq<char>) -> bool {
    forall|j: int| 0 <= j < line.len() ==> #[trigger] line[j] != '\n'
}

/// The lines of a buffer: at least one, none holding a newline character.
pub open spec fn lines_well_formed(lines: Seq<Seq<char>>) -> bool {
    &&& lines.len() >= 1
    &&& forall|i: int| 0 <= i < lines.len() ==> is_line(#[trigger] lines[i])
}

/// Splitting a text always yields at least one line, and no line holds a newline.
pub proof fn lemma_split_well_formed(text: Seq<char>)
    ensures
        lines_well_formed(split_at_newlines(text)),
    decreases text.len(),
{
    if text.len() > 0 {
        lemma_split_well_formed(text.drop_last());
        let prev = split_at_newlines(text.drop_last());
        let cur = split_at_newlines(text);
        if text.last() != '\n' {
            assert forall|i: int| 0 <= i < cur.len() implies is_line(#[trigger] cur[i]) by {
                if i == prev.len() - 1 {
                    assert(is_line(prev[i]));
                    assert forall|j: int| 0 <= j < cur[i].len() implies #[trigger] cur[i][j] != '\n' by {
                        if j < prev[i].len() {
                            assert(cur[i][j] == prev[i][j]);
                        }
                    }
                } else {
                    assert(cur[i] == prev[i]);
                }
            }
        } else {
            assert forall|i: int| 0 <= i < cur.len() implies is_line(#[trigger] cur[i]) by {
                if i < prev.len() {
                    assert(cur[i] == prev[i]);
                }
            }
        }
    }
}

/// Joining the lines of a text gives the text back.
pub proof fn law_text_round_trip(text: Seq<char>)
    ensures
        join_with_newlines(split_at_newlines(text)) == text,
    decreases text.len(),
{
    if text.len() > 0 {
        let prefix = text.drop_last();
        law_text_round_trip(prefix);
        lemma_split_well_formed(prefix);
        let prev = split_at_newlines(prefix);
        if text.last() == '\n' {
            let cur = prev.push(Seq::<char>::empty());
            assert(cur.drop_last() =~= prev);
            assert(join_with_newlines(cur) =~= prefix + seq!['\n'] + Seq::<char>::empty());
            assert(text =~= prefix + seq!['\n']);
        } else {
            lemma_join_push_char(prev, text.last());
            assert(text =~= prefix.push(text.last()));
        }
    }
}

/// Appending a character to the last line appends it to the joined text.
pub proof fn lemma_join_push_char(lines: Seq<Seq<char>>, c: char)
    requires
        lines.len() >= 1,
    ensures
        join_with_newlines(lines.update(lines.len() - 1, lines.last().push(c)))
            == join_with_newlines(lines).push(c),
{
    let cur = lines.update(lines.len() - 1, lines.last().push(c));
    if lines.len() > 1 {
        assert(cur.drop_last() =~= lines.drop_last());
        assert(join_with_newlines(cur) =~= join_with_newlines(lines).push(c));
    } else {
        assert(join_with_newlines(cur) =~= join_with_newlines(lines).push(c));
    }
}

/// Appending newline-free characters to a text extends its last line by them.
pub proof fn lemma_split_append_line(text: Seq<char>, tail: Seq<char>)
    requires
        is_line(tail),
    ensures
        split_at_newlines(text + tail) == ({
            let lines = split_at_newlines(text);
            lines.update(lines.len() - 1, lines.last() + tail)
        }),
    decreases tail.len(),
{
    lemma_split_well_formed(text);
    let lines = split_at_newlines(text);
    if tail.len() == 0 {
        assert(text + tail =~= text);
        assert(lines.update(lines.len() - 1, lines.last() + tail) =~= lines);
    } else {
        let shorter = tail.drop_last();
        assert(is_line(shorter)) by {
            assert forall|j: int| 0 <= j < shorter.len() implies #[trigger] shorter[j] != '\n' by {
                assert(shorter[j] == tail[j]);
            }
        }
        lemma_split_append_line(text, shorter);
        let whole = text + tail;
        assert(whole.drop_last() =~= text + shorter);
        assert(whole.last() == tail[tail.len() - 1]);
        assert(tail[tail.len() - 1] != '\n');
        let prev = split_at_newlines(text + shorter);
        assert(prev.len() == lines.len());
        assert(prev.last() + seq![whole.last()] =~= lines.last() + tail) by {
            assert(prev.last() == lines.last() + shorter);
        }
        assert(prev.last().push(whole.last()) =~= prev.last() + seq![whole.last()]);
        assert(split_at_newlines(whole) == prev.update(prev.len() - 1, prev.last().push(whole.last())));
        assert(split_at_newlines(whole) =~= lines.update(lines.len() - 1, lines.last() + tail));
    }
}

/// Splitting the joined text of well-formed lines gives the lines back.
pub proof fn law_lines_round_trip(lines: Seq<Seq<char>>)
    requires
        lines_well_formed(lines),
    ensures
        split_at_newlines(join_with_newlines(lines)) == lines,
    decreases lines.len(),
{
    if lines.len() == 1 {
        assert(is_line(lines[0]));
        lemma_split_append_line(Seq::<char>::empty(), lines[0]);
        assert(Seq::<char>::empty() + lines[0] =~= lines[0]);
        assert(split_at_newlines(Seq::<char>::empty()) =~= seq![Seq::<char>::empty()]);
        assert(split_at_newlines(lines[0]) =~= lines);
    } else {
        let init = lines.drop_last();
        assert(lines_well_formed(init)) by {
            assert forall|i: int| 0 <= i < init.len() implies is_line(#[trigger] init[i]) by {
                assert(init[i] == lines[i]);
            }
        }
        law_lines_round_trip(init);
        let head = join_with_newlines(init) + seq!['\n'];
        assert(head.drop_last() =~= join_with_newlines(init));
        assert(split_at_newlines(head) == init.push(Seq::<char>::empty()));
        assert(is_line(lines.last()));
        lemma_split_append_line(head, lines.last());
        let pushed = init.push(Seq::<char>::empty());
        assert(pushed.update(pushed.len() - 1, pushed.last() + lines.last()) =~= lines);
    }
}

/// Whether `c` is a Unicode white space character (it has the White_Space property).
pub open spec fn is_whitespace(c: char) -> bool {
    let v = c as u32;
    ||| 0x9 <= v <= 0xd
    ||| v == 0x20
    ||| v == 0x85
    ||| v == 0xa0
    ||| v == 0x1680
    ||| 0x2000 <= v <= 0x200a
    ||| v == 0x2028
    ||| v == 0x2029
    ||| v == 0x202f
    ||| v == 0x205f
    ||| v == 0x3000
}

/// Tells whether `c` is a Unicode white space character.
pub fn char_is_whitespace(c: char) -> (b: bool)
    ensures
        b == is_whitespace(c),
{
    let v = c as u32;
    (0x9 <= v && v <= 0xd) || v == 0x20 || v == 0x85 || v == 0xa0 || v == 0x1680 || (0x2000 <= v
        && v <= 0x200a) || v == 0x2028 || v == 0x2029 || v == 0x202f || v == 0x205f || v == 0x3000
}

/// The column of the last character of a line; 0 on an empty line.
pub open spec fn last_col(line: Seq<char>) -> int {
    if line.len() == 0 {
        0
    } else {
        line.len() - 1
    }
}

/// The column of the first character at or after `from` that is not white space;
/// the last column where there is none.
pub open spec fn first_non_whitespace_from(line: Seq<char>, from: int) -> int
    decreases line.len() - from,
{
    if from >= line.len() {
        last_col(line)
    } else if !is_whitespace(line[from]) {
        from
    } else {
        first_non_whitespace_from(line, from + 1)
    }
}

/// The first non-white-space column found from `from` on lies within the line.
pub proof fn lemma_first_non_whitespace_from_bounds(line: Seq<char>, from: int)
    requires
        0 <= from,
    ensures
        0 <= first_non_whitespace_from(line, from) <= line.len(),
        line.len() > 0 ==> first_non_whitespace_from(line, from) < line.len(),
    decreases line.len() - from,
{
    if from < line.len() && is_whitespace(line[from]) {
        lemma_first_non_whitespace_from_bounds(line, from + 1);
    }
}

/// The column of the first character of a line that is not white space;
/// the last column where the line is blank.
pub open spec fn first_non_whitespace(line: Seq<char>) -> int {
    first_non_whitespace_from(line, 0)
}

/// The lines after line `row` is cut in two at column `col`.
pub open spec fn split_line_at(lines: Seq<Seq<char>>, row: int, col: int) -> Seq<Seq<char>> {
    lines.update(row, lines[row].take(col)).insert(row + 1, lines[row].skip(col))
}

/// The lines after line `row` is appended to line `row - 1`.
pub open spec fn join_line_to_previous(lines: Seq<Seq<char>>, row: int) -> Seq<Seq<char>> {
    lines.update(row - 1, lines[row - 1] + lines[row]).remove(row)
}

/// The lines after character `c` goes in at column `col` of line `row`; a newline cuts the line.
pub open spec fn insert_char_at(lines: Seq<Seq<char>>, c: char, row: int, col: int) -> Seq<Seq<char>> {
    if c == '\n' {
        split_line_at(lines, row, col)
    } else {
        lines.update(row, lines[row].insert(col, c))
    }
}

/// The lines after the character at column `col` of line `row` is taken out.
pub open spec fn remove_char_at(lines: Seq<Seq<char>>, row: int, col: int) -> Seq<Seq<char>> {
    lines.update(row, lines[row].remove(col))
}

/// Putting a character in at a column of a row keeps the lines well formed.
pub proof fn lemma_insert_char_well_formed(lines: Seq<Seq<char>>, c: char, row: int, col: int)
    requires
        lines_well_formed(lines),
        0 <= row < lines.len(),
        0 <= col <= lines[row].len(),
    ensures
        lines_well_formed(insert_char_at(lines, c, row, col)),
{
    if c == '\n' {
        lemma_split_line_well_formed(lines, row, col);
    } else {
        let after = insert_char_at(lines, c, row, col);
        assert forall|i: int| 0 <= i < after.len() implies is_line(#[trigger] after[i]) by {
            if i == row {
                assert forall|j: int| 0 <= j < after[i].len() implies #[trigger] after[i][j] != '\n' by {
                    if j < col {
                        assert(after[i][j] == lines[i][j]);
                    } else if j > col {
                        assert(after[i][j] == lines[i][j - 1]);
                    }
                }
            } else {
                assert(after[i] == lines[i]);
            }
        }
    }
}

/// Cutting a row in two keeps the lines well formed.
pub proof fn lemma_split_line_well_formed(lines: Seq<Seq<char>>, row: int, col: int)
    requires
        lines_well_formed(lines),
        0 <= row < lines.len(),
        0 <= col <= lines[row].len(),
    ensures
        lines_well_formed(split_line_at(lines, row, col)),
        split_line_at(lines, row, col).len() == lines.len() + 1,
        split_line_at(lines, row, col)[row] == lines[row].take(col),
        split_line_at(lines, row, col)[row + 1] == lines[row].skip(col),
{
    let after = split_line_at(lines, row, col);
    assert forall|i: int| 0 <= i < after.len() implies is_line(#[trigger] after[i]) by {
        if i < row {
            assert(after[i] == lines[i]);
        } else if i == row {
            assert forall|j: int| 0 <= j < after[i].len() implies #[trigger] after[i][j] != '\n' by {
                assert(after[i][j] == lines[row][j]);
            }
        } else if i == row + 1 {
            assert forall|j: int| 0 <= j < after[i].len() implies #[trigger] after[i][j] != '\n' by {
                assert(after[i][j] == lines[row][j + col]);
            }
        } else {
            assert(after[i] == lines[i - 1]);
        }
    }
}

/// Appending a row to the one above keeps the lines well formed.
pub proof fn lemma_join_line_well_formed(lines: Seq<Seq<char>>, row: int)
    requires
        lines_well_formed(lines),
        0 < row < lines.len(),
    ensures
        lines_well_formed(join_line_to_previous(lines, row)),
        join_line_to_previous(lines, row).len() == lines.len() - 1,
        join_line_to_previous(lines, row)[row - 1] == lines[row - 1] + lines[row],
{
    let after = join_line_to_previous(lines, row);
    assert forall|i: int| 0 <= i < after.len() implies is_line(#[trigger] after[i]) by {
        if i < row - 1 {
            assert(after[i] == lines[i]);
        } else if i == row - 1 {
            let p = lines[row - 1];
            assert forall|j: int| 0 <= j < after[i].len() implies #[trigger] after[i][j] != '\n' by {
                if j < p.len() {
                    assert(after[i][j] == p[j]);
                } else {
                    assert(after[i][j] == lines[row][j - p.len()]);
                }
            }
        } else {
            assert(after[i] == lines[i + 1]);
        }
    }
}

/// Taking a character out keeps the lines well formed.
pub proof fn lemma_remove_char_well_formed(lines: Seq<Seq<char>>, row: int, col: int)
    requires
        lines_well_formed(lines),
        0 <= row < lines.len(),
        0 <= col < lines[row].len(),
    ensures
        lines_well_formed(remove_char_at(lines, row, col)),
{
    let after = remove_char_at(lines, row, col);
    assert forall|i: int| 0 <= i < after.len() implies is_line(#[trigger] after[i]) by {
        if i == row {
            assert forall|j: int| 0 <= j < after[i].len() implies #[trigger] after[i][j] != '\n' by {
                if j < col {
                    assert(after[i][j] == lines[i][j]);
                } else {
                    assert(after[i][j] == lines[i][j + 1]);
                }
            }
        } else {
            assert(after[i] == lines[i]);
        }
    }
}

/// The text that comes before line `row` in the joined text, its newline included.
pub open spec fn text_before_line(lines: Seq<Seq<char>>, row: int) -> Seq<char> {
    if row == 0 {
        Seq::<char>::empty()
    } else {
        join_with_newlines(lines.take(row)) + seq!['\n']
    }
}

/// The text that comes after line `row` in the joined text, its newline included.
pub open spec fn text_after_line(lines: Seq<Seq<char>>, row: int) -> Seq<char> {
    if row + 1 >= lines.len() {
        Seq::<char>::empty()
    } else {
        seq!['\n'] + join_with_newlines(lines.skip(row + 1))
    }
}

/// Where column `col` of line `row` lies in the joined text.
pub open spec fn text_offset(lines: Seq<Seq<char>>, row: int, col: int) -> int {
    text_before_line(lines, row).len() + col
}

/// Joining two nonempty runs of lines puts a newline between their texts.
pub proof fn lemma_join_concat(a: Seq<Seq<char>>, b: Seq<Seq<char>>)
    requires
        a.len() >= 1,
        b.len() >= 1,
    ensures
        join_with_newlines(a + b) == join_with_newlines(a) + seq!['\n'] + join_with_newlines(b),
    decreases b.len(),
{
    let ab = a + b;
    if b.len() == 1 {
        assert(ab.drop_last() =~= a);
        assert(ab.last() == b[0]);
    } else {
        lemma_join_concat(a, b.drop_last());
        assert(ab.drop_last() =~= a + b.drop_last());
        assert(ab.last() == b.last());
        assert(join_with_newlines(ab) =~= join_with_newlines(a) + seq!['\n'] + join_with_newlines(b));
    }
}

/// The joined text is the text before a line, the line, and the text after it.
pub proof fn lemma_join_around_line(lines: Seq<Seq<char>>, row: int)
    requires
        0 <= row < lines.len(),
    ensures
        join_with_newlines(lines) == text_before_line(lines, row) + lines[row] + text_after_line(
            lines,
            row,
        ),
{
    let before = lines.take(row);
    let after = lines.skip(row + 1);
    let mid = seq![lines[row]];
    assert(join_with_newlines(mid) == lines[row]);
    if row == 0 {
        if row + 1 >= lines.len() {
            assert(lines =~= mid);
            assert(text_before_line(lines, row) + lines[row] + text_after_line(lines, row) =~= lines[row]);
        } else {
            assert(lines =~= mid + after);
            lemma_join_concat(mid, after);
            assert(join_with_newlines(lines) =~= text_before_line(lines, row) + lines[row]
                + text_after_line(lines, row));
        }
    } else {
        if row + 1 >= lines.len() {
            assert(lines =~= before + mid);
            lemma_join_concat(before, mid);
            assert(join_with_newlines(lines) =~= text_before_line(lines, row) + lines[row]
                + text_after_line(lines, row));
        } else {
            assert(lines =~= (before + mid) + after);
            lemma_join_concat(before + mid, after);
            lemma_join_concat(before, mid);
            assert(join_with_newlines(lines) =~= text_before_line(lines, row) + lines[row]
                + text_after_line(lines, row));
        }
    }
}

/// Typing a character at a column of a line puts it into the joined text at that place;
/// a newline too, since it cuts the line there.
pub proof fn law_insert_char_edits_text(lines: Seq<Seq<char>>, c: char, row: int, col: int)
    requires
        0 <= row < lines.len(),
        0 <= col <= lines[row].len(),
    ensures
        join_with_newlines(insert_char_at(lines, c, row, col)) == join_with_newlines(lines).insert(
            text_offset(lines, row, col),
            c,
        ),
{
    let line = lines[row];
    let pre = text_before_line(lines, row);
    let post = text_after_line(lines, row);
    lemma_join_around_line(lines, row);
    let after = insert_char_at(lines, c, row, col);
    if c == '\n' {
        lemma_join_around_line(after, row);
        assert(after.take(row) =~= lines.take(row));
        assert(text_before_line(after, row) == pre);
        let rest = after.skip(row + 1);
        assert(rest =~= seq![line.skip(col)] + lines.skip(row + 1));
        if row + 1 >= lines.len() {
            assert(rest =~= seq![line.skip(col)]);
            assert(text_after_line(after, row) =~= seq!['\n'] + line.skip(col) + post);
        } else {
            lemma_join_concat(seq![line.skip(col)], lines.skip(row + 1));
            assert(text_after_line(after, row) =~= seq!['\n'] + line.skip(col) + post);
        }
        assert(after[row] == line.take(col));
        assert(join_with_newlines(after) =~= (pre + line + post).insert(pre.len() + col, c));
    } else {
        lemma_join_around_line(after, row);
        assert(after.take(row) =~= lines.take(row));
        assert(after.skip(row + 1) =~= lines.skip(row + 1));
        assert(text_before_line(after, row) == pre);
        assert(text_after_line(after, row) == post);
        assert(join_with_newlines(after) =~= (pre + line + post).insert(pre.len() + col, c));
    }
}

/// Taking out a character of a line takes it out of the joined text at that place.
pub proof fn law_remove_char_edits_text(lines: Seq<Seq<char>>, row: int, col: int)
    requires
        0 <= row < lines.len(),
        0 <= col < lines[row].len(),
    ensures
        join_with_newlines(remove_char_at(lines, row, col)) == join_with_newlines(lines).remove(
            text_offset(lines, row, col),
        ),
{
    let line = lines[row];
    let pre = text_before_line(lines, row);
    let post = text_after_line(lines, row);
    lemma_join_around_line(lines, row);
    let after = remove_char_at(lines, row, col);
    lemma_join_around_line(after, row);
    assert(after.take(row) =~= lines.take(row));
    assert(after.skip(row + 1) =~= lines.skip(row + 1));
    assert(text_before_line(after, row) == pre);
    assert(text_after_line(after, row) == post);
    assert(join_with_newlines(after) =~= (pre + line + post).remove(pre.len() + col));
}

/// The text before a line is the text before the line above it, that line, and a newline.
pub proof fn lemma_text_before_next_line(lines: Seq<Seq<char>>, row: int)
    requires
        0 < row < lines.len(),
    ensures
        text_before_line(lines, row) == text_before_line(lines, row - 1) + lines[row - 1]
            + seq!['\n'],
{
    let prev = lines[row - 1];
    if row - 1 == 0 {
        assert(lines.take(row) =~= seq![prev]);
        assert(join_with_newlines(seq![prev]) == prev);
    } else {
        assert(lines.take(row) =~= lines.take(row - 1) + seq![prev]);
        lemma_join_concat(lines.take(row - 1), seq![prev]);
        assert(join_with_newlines(seq![prev]) == prev);
    }
    assert(text_before_line(lines, row) =~= text_before_line(lines, row - 1) + prev + seq!['\n']);
}

/// The text after a line is a newline, the line below it, and the text after that one.
pub proof fn lemma_text_after_previous_line(lines: Seq<Seq<char>>, row: int)
    requires
        0 < row < lines.len(),
    ensures
        text_after_line(lines, row - 1) == seq!['\n'] + lines[row] + text_after_line(lines, row),
{
    let line = lines[row];
    let rest = lines.skip(row);
    assert(join_with_newlines(seq![line]) == line);
    if row + 1 >= lines.len() {
        assert(rest =~= seq![line]);
    } else {
        assert(rest =~= seq![line] + lines.skip(row + 1));
        lemma_join_concat(seq![line], lines.skip(row + 1));
    }
    assert(text_after_line(lines, row - 1) =~= seq!['\n'] + line + text_after_line(lines, row));
}

/// Joining a line to the one above takes out of the joined text the newline between them,
/// the character just before the line's first column.
pub proof fn law_join_line_edits_text(lines: Seq<Seq<char>>, row: int)
    requires
        0 < row < lines.len(),
    ensures
        join_with_newlines(join_line_to_previous(lines, row)) == join_with_newlines(lines).remove(
            text_offset(lines, row, 0) - 1,
        ),
{
    let prev = lines[row - 1];
    let line = lines[row];
    let pre = text_before_line(lines, row - 1);
    let post = text_after_line(lines, row);
    let after = join_line_to_previous(lines, row);
    assert(join_with_newlines(lines) == pre + prev + (seq!['\n'] + line + post)) by {
        lemma_join_around_line(lines, row - 1);
        lemma_text_after_previous_line(lines, row);
    }
    assert(join_with_newlines(after) == pre + (prev + line) + post) by {
        lemma_join_around_line(after, row - 1);
        assert(after.take(row - 1) =~= lines.take(row - 1));
        assert(after.skip(row) =~= lines.skip(row + 1));
    }
    assert(text_offset(lines, row, 0) - 1 == pre.len() + prev.len()) by {
        lemma_text_before_next_line(lines, row);
    }
    assert(join_with_newlines(after) =~= (pre + prev + (seq!['\n'] + line + post)).remove(
        (pre.len() + prev.len()) as int,
    ));
}

/// The first non-white-space column found from `from` on is either a column holding a
/// character that is not white space, with only white space between `from` and it, or,
/// where everything from `from` on is white space, the line's last column.
pub proof fn law_first_non_whitespace_from(line: Seq<char>, from: int)
    requires
        0 <= from,
    ensures
        ({
            let r = first_non_whitespace_from(line, from);
            ||| (from <= r < line.len() && !is_whitespace(line[r]) && forall|j: int|
                from <= j < r ==> is_whitespace(#[trigger] line[j]))
            ||| ((forall|j: int| from <= j < line.len() ==> is_whitespace(#[trigger] line[j]))
                && r == (if line.len() == 0 {
                0
            } else {
                line.len() - 1
            }))
        }),
    decreases line.len() - from,
{
    if from < line.len() && is_whitespace(line[from]) {
        law_first_non_whitespace_from(line, from + 1);
    }
}

/// A joined text holds the text of each line at the line's offset, so every offset within
/// a line lies within the text.
pub proof fn lemma_text_offset_bounds(lines: Seq<Seq<char>>, row: int, col: int)
    requires
        0 <= row < lines.len(),
        0 <= col <= lines[row].len(),
    ensures
        0 <= text_offset(lines, row, col) <= join_with_newlines(lines).len(),
{
    lemma_join_around_line(lines, row);
}

} // verus!
