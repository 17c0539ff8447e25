//! A small modal text editor: a buffer of lines, a cursor in it, and an editor whose mode
//! decides what each key does.

pub mod buffer;
pub mod cursor;
pub mod editor;
pub mod laws;
pub mod status;
pub mod text;

pub use buffer::Buffer;
pub use cursor::Cursor;
pub use editor::Editor;
