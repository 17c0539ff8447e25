use vstd::prelude::*;

use vstd::utf8::{encode_scalar, encode_utf8};

use crate::editor::EditorMode;

verus! {

/// The name of a mode in capitals, as the status line shows it.
pub open spec fn mode_label(mode: EditorMode) -> Seq<char> {
    match mode {
        EditorMode::Normal => "NORMAL"@,
        EditorMode::Insert => "INSERT"@,
        EditorMode::Command => "COMMAND"@,
    }
}

/// The decimal digit for `d`.
pub open spec fn digit_char(d: nat) -> char {
    (d + 48) as char
}

/// The decimal numeral for `n`, without leading zeros.
pub open spec fn decimal(n: nat) -> Seq<char>
    decreases n,
{
    if n < 10 {
        seq![digit_char(n)]
    } else {
        decimal(n / 10).push(digit_char(n % 10))
    }
}

/// The left part of the status line: the mode, then the path (or "[No Name]"), marked
/// " [+]" when the buffer is modified.
pub open spec fn status_left(mode: EditorMode, path: Option<Seq<char>>, modified: bool) -> Seq<
    char,
> {
    " "@ + mode_label(mode) + " | "@ + (match path {
        Some(p) => p,
        None => "[No Name]"@,
    }) + (if modified {
        " [+]"@
    } else {
        Seq::<char>::empty()
    })
}

/// The right part of the status line: the cursor's row and column, counted from 1.
pub open spec fn status_right(row: nat, col: nat) -> Seq<char> {
    decimal(row + 1) + ":"@ + decimal(col + 1) + " "@
}

/// The number of bytes that the left and right parts take in UTF-8.
pub open spec fn status_bytes(mode: EditorMode, path: Option<Seq<char>>, modified: bool, row: nat, col: nat) -> nat {
    encode_utf8(status_left(mode, path, modified)).len() + encode_utf8(status_right(row, col)).len()
}

/// The status line for a terminal `width` bytes wide: the left part, then as many spaces as
/// the width leaves beside the two parts' bytes (none where it leaves none), then the right part.
pub open spec fn status_text(
    mode: EditorMode,
    path: Option<Seq<char>>,
    modified: bool,
    row: nat,
    col: nat,
    width: nat,
) -> Seq<char> {
    let used = status_bytes(mode, path, modified, row, col);
    let gap: nat = if width > used {
        (width - used) as nat
    } else {
        0
    };
    status_left(mode, path, modified) + Seq::new(gap, |i: int| ' ') + status_right(row, col)
}

fn push_digit(s: &mut String, d: usize)
    requires
        d < 10,
    ensures
        final(s)@ == old(s)@.push(digit_char(d as nat)),
{
    let c = ((d as u8) + 48u8) as char;
    s.push(c);
}

/// Appends the decimal numeral for `n`.
fn push_decimal(s: &mut String, n: usize)
    ensures
        final(s)@ == old(s)@ + decimal(n as nat),
    decreases n,
{
    if n >= 10 {
        push_decimal(s, n / 10);
    }
    push_digit(s, n % 10);
    assert(s@ =~= old(s)@ + decimal(n as nat));
}

/// The status line that the editor shows under the buffer: mode, path, whether the buffer is
/// modified, and the cursor's position counted from 1, spread over `width` bytes.
pub fn status_line(
    mode: EditorMode,
    path: Option<&str>,
    modified: bool,
    row: usize,
    col: usize,
    width: usize,
) -> (s: String)
    requires
        row < usize::MAX,
        col < usize::MAX,
        status_bytes(
            mode,
            match path {
                Some(p) => Some(p@),
                None => None,
            },
            modified,
            row as nat,
            col as nat,
        ) <= usize::MAX,
    ensures
        s@ == status_text(
            mode,
            match path {
                Some(p) => Some(p@),
                None => None,
            },
            modified,
            row as nat,
            col as nat,
            width as nat,
        ),
{
    let ghost path_view = match path {
        Some(p) => Some(p@),
        None => None::<Seq<char>>,
    };
    let mut left = String::from_str(" ");
    match mode {
        EditorMode::Normal => left.append("NORMAL"),
        EditorMode::Insert => left.append("INSERT"),
        EditorMode::Command => left.append("COMMAND"),
    }
    left.append(" | ");
    match path {
        Some(p) => left.append(p),
        None => left.append("[No Name]"),
    }
    if modified {
        left.append(" [+]");
    }
    assert(left@ =~= status_left(mode, path_view, modified));

    let mut right = String::new();
    push_decimal(&mut right, row + 1);
    right.append(":");
    push_decimal(&mut right, col + 1);
    right.append(" ");
    assert(right@ =~= status_right(row as nat, col as nat));

    let used = left.as_str().len() + right.as_str().len();
    let gap = width.saturating_sub(used);

    let mut status = left;
    let ghost start = status@;
    let mut i: usize = 0;
    while i < gap
        invariant
            i <= gap,
            status@ == start + Seq::new(i as nat, |k: int| ' '),
        decreases gap - i,
    {
        status.push(' ');
        assert(status@ =~= start + Seq::new((i + 1) as nat, |k: int| ' '));
        i += 1;
    }
    status.append(right.as_str());
    status
}

/// The text of the command line: in command mode a colon and the command being typed,
/// in other modes nothing.
pub open spec fn command_line_text(mode: EditorMode, pending_command: Option<Seq<char>>) -> Seq<
    char,
> {
    if mode == EditorMode::Command {
        ":"@ + match pending_command {
            Some(c) => c,
            None => Seq::<char>::empty(),
        }
    } else {
        Seq::<char>::empty()
    }
}

/// The command line that the editor shows at the bottom of the terminal.
pub fn command_line(mode: EditorMode, pending_command: Option<&str>) -> (s: String)
    ensures
        s@ == command_line_text(
            mode,
            match pending_command {
                Some(c) => Some(c@),
                None => None,
            },
        ),
{
    match mode {
        EditorMode::Command => {
            let mut line = String::from_str(":");
            match pending_command {
                Some(c) => line.append(c),
                None => {},
            }
            line
        },
        _ => String::new(),
    }
}

/// The terminal column of the cursor in command mode: just past the colon and the command's
/// bytes, the byte count taken modulo 2^16.
pub open spec fn command_cursor_column(pending_command: Option<Seq<char>>) -> u16 {
    match pending_command {
        Some(c) => ((encode_utf8(c).len() as u16) + 1) as u16,
        None => 1,
    }
}

/// Where the cursor stands on the command line in command mode.
pub fn command_cursor_col(pending_command: Option<&str>) -> (col: u16)
    requires
        pending_command matches Some(c) ==> encode_utf8(c@).len() <= usize::MAX
            && (encode_utf8(c@).len() as u16) < u16::MAX,
    ensures
        col == command_cursor_column(
            match pending_command {
                Some(c) => Some(c@),
                None => None,
            },
        ),
{
    match pending_command {
        Some(c) => {
            let n = c.len();
            (#[verifier::truncate] (n as u16)) + 1
        },
        None => 1,
    }
}

/// The number a string of decimal digits stands for, read left to right.
pub open spec fn digits_value(digits: Seq<char>) -> int
    decreases digits.len(),
{
    if digits.len() == 0 {
        0
    } else {
        digits_value(digits.drop_last()) * 10 + (digits.last() as int - 48)
    }
}

/// The numeral for `n` is made of the digits '0' to '9', stands for `n`, and has no leading
/// zero.
pub proof fn law_decimal(n: nat)
    ensures
        decimal(n).len() >= 1,
        forall|i: int| 0 <= i < decimal(n).len() ==> '0' <= #[trigger] decimal(n)[i] <= '9',
        digits_value(decimal(n)) == n,
        decimal(n).len() > 1 ==> decimal(n)[0] != '0',
        n >= 10 ==> decimal(n).len() >= 2,
    decreases n,
{
    let d = (n % 10) as nat;
    assert(digit_char(d) as int == d + 48);
    if n >= 10 {
        law_decimal(n / 10);
        let prev = decimal(n / 10);
        assert(decimal(n).drop_last() =~= prev);
        assert(decimal(n).last() == digit_char(d));
        assert(digits_value(decimal(n)) == digits_value(prev) * 10 + d);
        assert((n / 10) * 10 + d == n);
        assert forall|i: int| 0 <= i < decimal(n).len() implies '0' <= #[trigger] decimal(n)[i]
            <= '9' by {
            if i < prev.len() {
                assert(decimal(n)[i] == prev[i]);
            }
        }
        assert(decimal(n)[0] == prev[0]);
        if prev.len() == 1 {
            let m = (n / 10) as nat;
            assert(m < 10);
            assert(prev == seq![digit_char(m)]);
            assert(digit_char(m) as int == m + 48);
        }
    } else {
        assert(seq![digit_char(n)].drop_last() =~= Seq::<char>::empty());
        assert(digits_value(Seq::<char>::empty()) == 0);
        assert(decimal(n).last() == digit_char(n));
    }
}

/// UTF-8 encodes a concatenation as the concatenation of the encodings.
pub proof fn lemma_encode_utf8_concat(a: Seq<char>, b: Seq<char>)
    ensures
        encode_utf8(a + b) == encode_utf8(a) + encode_utf8(b),
    decreases a.len(),
{
    if a.len() > 0 {
        assert((a + b).drop_first() =~= a.drop_first() + b);
        lemma_encode_utf8_concat(a.drop_first(), b);
        assert((a + b)[0] == a[0]);
        assert(encode_utf8(a + b) =~= encode_utf8(a) + encode_utf8(b));
    } else {
        assert(a + b =~= b);
        assert(encode_utf8(a) =~= Seq::<u8>::empty());
        assert(encode_utf8(a) + encode_utf8(b) =~= encode_utf8(b));
    }
}

/// Spaces take one byte each in UTF-8.
pub proof fn lemma_encode_utf8_spaces(n: nat)
    ensures
        encode_utf8(Seq::new(n, |i: int| ' ')).len() == n,
    decreases n,
{
    let sp = Seq::new(n, |i: int| ' ');
    if n > 0 {
        lemma_encode_utf8_spaces((n - 1) as nat);
        assert(sp.drop_first() =~= Seq::new((n - 1) as nat, |i: int| ' '));
        assert(sp[0] == ' ');
        assert((' ' as u32) == 32);
        assert(encode_scalar(32u32).len() == 1);
    } else {
        assert(sp =~= Seq::<char>::empty());
    }
}

/// The status line is the mode's name in capitals between a space and " | ", then the path
/// (or "[No Name]"), then " [+]" exactly when the buffer is modified, then spaces, then the
/// row and column counted from 1, joined by ':' and followed by a space. Where the terminal
/// is wide enough, the line takes exactly `width` bytes; where it is not, there are no spaces
/// between the two parts.
pub proof fn law_status_line(
    mode: EditorMode,
    path: Option<Seq<char>>,
    modified: bool,
    row: nat,
    col: nat,
    width: nat,
)
    ensures
        ({
            let name = match mode {
                EditorMode::Normal => "NORMAL"@,
                EditorMode::Insert => "INSERT"@,
                EditorMode::Command => "COMMAND"@,
            };
            let shown_path = match path {
                Some(p) => p,
                None => "[No Name]"@,
            };
            let left = " "@ + name + " | "@ + shown_path + (if modified {
                " [+]"@
            } else {
                Seq::<char>::empty()
            });
            let right = decimal(row + 1) + ":"@ + decimal(col + 1) + " "@;
            let text = status_text(mode, path, modified, row, col, width);
            let used = encode_utf8(left).len() + encode_utf8(right).len();
            &&& text.len() >= left.len() + right.len()
            &&& text.take(left.len() as int) == left
            &&& text.skip(text.len() - right.len()) == right
            &&& forall|i: int| left.len() <= i < text.len() - right.len() ==> #[trigger] text[i]
                == ' '
            &&& used <= width ==> encode_utf8(text).len() == width
            &&& used >= width ==> text == left + right
        }),
{
    let left = status_left(mode, path, modified);
    let right = status_right(row, col);
    let used = status_bytes(mode, path, modified, row, col);
    let gap: nat = if width > used {
        (width - used) as nat
    } else {
        0
    };
    let spaces = Seq::new(gap, |i: int| ' ');
    let text = status_text(mode, path, modified, row, col, width);
    assert(text == left + spaces + right);
    assert(text.take(left.len() as int) =~= left);
    assert(text.skip(text.len() - right.len()) =~= right);
    lemma_encode_utf8_concat(left + spaces, right);
    lemma_encode_utf8_concat(left, spaces);
    lemma_encode_utf8_spaces(gap);
    if used >= width {
        assert(spaces =~= Seq::<char>::empty());
        assert(text =~= left + right);
    }
}

/// In command mode the command line is a colon followed by the command being typed (nothing
/// after the colon when there is none); in the other modes it is empty. On the command line
/// the cursor stands just past the colon and the command's bytes.
pub proof fn law_command_line(mode: EditorMode, pending_command: Option<Seq<char>>)
    ensures
        mode != EditorMode::Command ==> command_line_text(mode, pending_command).len() == 0,
        mode == EditorMode::Command ==> ({
            let t = command_line_text(mode, pending_command);
            &&& t.len() >= 1
            &&& t[0] == ':'
            &&& t.drop_first() == match pending_command {
                Some(c) => c,
                None => Seq::<char>::empty(),
            }
        }),
        pending_command is None ==> command_cursor_column(pending_command) == 1,
        pending_command matches Some(c) ==> (encode_utf8(c).len() + 1 < 0x10000
            ==> command_cursor_column(pending_command) == encode_utf8(c).len() + 1),
{
    reveal_strlit(":");
    if mode == EditorMode::Command {
        let t = command_line_text(mode, pending_command);
        assert(t.drop_first() =~= match pending_command {
            Some(c) => c,
            None => Seq::<char>::empty(),
        });
    }
}

} // verus!
