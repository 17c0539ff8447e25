# rim

A small modal text editor in the style of vi, written in Verus.

- `src/text.rs`: the model of a text as lines (splitting at and joining with newlines),
  the line edits, and their proofs: the two round trips between a text and its lines, and
  that each line edit is the matching one-character edit of the joined text.
- `src/buffer.rs`: `Buffer`, the lines being edited, with a modified flag and a path.
- `src/cursor.rs`: `Cursor`, a row and a column, with free motions and motions bounded by a buffer.
- `src/editor.rs`: `Editor`, the keys-to-edits state machine over normal, insert and command
  modes, specified by the pure function `step` on `EditorState`.
- `src/status.rs`: the text of the status line (mode, path, modified mark, position), of the
  command line, and the cursor column on the command line.
- `src/laws.rs`: properties of `step` that hold over sequences of keys.
- `app/main.rs`: the terminal front end (crossterm): reading keys, drawing, reading and
  writing the file.
