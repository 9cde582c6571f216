//! The text buffer and viewport engine of a terminal line editor: grapheme-aware
//! rows, a document of rows, the cursor and scroll arithmetic around them, and the
//! text of each screen line.

mod document;
mod editor;
mod row;
mod screen;

pub use document::{
    lemma_break_then_delete, line_len, line_pieces, lines_of, saved_bytes, split_lines, strip_cr,
    with_char, with_delete, with_line_break, Document,
};
pub use editor::{
    after_key, after_move, message_shown, saturated, scrolled, scrolled_axis, shows_message,
    CursorPosition, Editor, Key, StatusMessage, TerminalSize,
};
pub use row::{
    after, before, clusters, lemma_delete_then_insert, lemma_render_bounded,
    lemma_split_then_append, segmented, shown, visible, Row,
};
pub use screen::{
    decimal, digit_char, digits, fit, prefix, spaces, status_line, welcome, welcome_line,
    ScreenLine,
};
