//! Core of a terminal text viewer: a buffer of logical lines mapped onto a
//! fixed-size viewport with line wrapping, a cursor addressed both in screen
//! and in logical coordinates, a renderer that emits the terminal control
//! codes for one full redraw, and a streaming decoder for escape-sequence
//! input. All I/O stays outside; this crate works on plain bytes and values.

pub mod buffer;
pub mod editor;
pub mod keys;
pub mod laws;
pub mod render;
pub mod report;
pub mod scan;
pub mod wrap;

pub use buffer::split_lines;
pub use editor::Cursor;
pub use editor::Editor;
pub use editor::Pos;
pub use keys::ctrl_mask;
pub use keys::Decoded;
pub use keys::Decoder;
pub use keys::DecoderState;
pub use keys::Key;
pub use report::parse_cursor_report;
