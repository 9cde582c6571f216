use crate::document::{line_len, with_char, with_delete, Document};
use std::time::Instant;
use vstd::prelude::*;
use vstd::string::StrSliceExecFns;

verus! {

/// A place in the document: column `x` in clusters, line `y`, both from zero.
#[derive(Clone, Copy, Debug, Default, PartialEq, Eq, Structural)]
pub struct CursorPosition {
    pub x: usize,
    pub y: usize,
}

/// The size of the text area of the screen, in cells.
#[derive(Clone, Copy, Debug, PartialEq, Eq, Structural)]
pub struct TerminalSize {
    pub height: u16,
    pub width: u16,
}

/// What the user asked for with one key.
#[derive(Clone, Copy, Debug, PartialEq, Eq, Structural)]
pub enum Key {
    Char(char),
    Delete,
    Backspace,
    Up,
    Down,
    Left,
    Right,
    PageUp,
    PageDown,
    Home,
    End,
    Quit,
    Other,
}

/// Where the cursor goes for `key` in `d`, with pages of `page` lines: afterwards the
/// column is clamped to the length of the line the cursor is on.
pub open spec fn after_move(d: Seq<Seq<char>>, at: CursorPosition, key: Key, page: int) -> CursorPosition {
    let x = at.x as int;
    let y = at.y as int;
    let n = d.len() as int;
    let w = line_len(d, y) as int;
    let (nx, ny) = match key {
        Key::Up => (x, if y > 0 { y - 1 } else { 0 }),
        Key::Down => (x, if y < n { y + 1 } else { y }),
        Key::Left => if x > 0 {
            (x - 1, y)
        } else if y > 0 {
            (line_len(d, y - 1) as int, y - 1)
        } else {
            (x, y)
        },
        Key::Right => if x < w {
            (x + 1, y)
        } else if y < n {
            (0, y + 1)
        } else {
            (x, y)
        },
        Key::PageUp => (x, if y > page { y - page } else { 0 }),
        Key::PageDown => (x, if y + page < n { y + page } else { n }),
        Key::Home => (0, y),
        Key::End => (w, y),
        _ => (x, y),
    };
    let cx = if nx > line_len(d, ny) { line_len(d, ny) as int } else { nx };
    CursorPosition { x: cx as usize, y: ny as usize }
}

/// `v` held between zero and the largest `usize`.
pub open spec fn saturated(v: int) -> int {
    if v < 0 {
        0
    } else if v > usize::MAX {
        usize::MAX as int
    } else {
        v
    }
}

/// The least scroll along one axis that keeps `pos` inside a window of `size` cells
/// that started at `off`.
pub open spec fn scrolled_axis(pos: int, off: int, size: int) -> int {
    if pos < off {
        pos
    } else if pos >= saturated(off + size) {
        saturated(saturated(pos - size) + 1)
    } else {
        off
    }
}

/// The offset after scrolling a `size` window at `off` to show `at`.
pub open spec fn scrolled(at: CursorPosition, off: CursorPosition, size: TerminalSize) -> CursorPosition {
    CursorPosition {
        x: scrolled_axis(at.x as int, off.x as int, size.width as int) as usize,
        y: scrolled_axis(at.y as int, off.y as int, size.height as int) as usize,
    }
}

/// The document and cursor after `key`: typing goes in at the cursor, which then moves
/// right; backspace, away from the very start, moves left and deletes there.
pub open spec fn after_key(d: Seq<Seq<char>>, at: CursorPosition, key: Key, page: int) -> (Seq<Seq<char>>, CursorPosition) {
    match key {
        Key::Char(c) => {
            let e = with_char(d, at, c);
            (e, after_move(e, at, Key::Right, page))
        },
        Key::Delete => (with_delete(d, at), at),
        Key::Backspace => if at.x > 0 || at.y > 0 {
            let back = after_move(d, at, Key::Left, page);
            (with_delete(d, back), back)
        } else {
            (d, at)
        },
        Key::Up | Key::Down | Key::Left | Key::Right | Key::PageUp | Key::PageDown | Key::Home
        | Key::End => (d, after_move(d, at, key, page)),
        _ => (d, at),
    }
}

/// Whether a message set `elapsed_secs` seconds ago is still shown.
pub open spec fn message_shown(elapsed_secs: u64) -> bool {
    elapsed_secs < 5
}

/// `std::time::Instant`, carried through without looking inside.
#[verifier::external_type_specification]
#[verifier::external_body]
pub struct ExInstant(Instant);

/// Relies on `Instant::now`: a reading of the clock, of which nothing is known.
#[verifier::external_body]
fn now() -> Instant {
    Instant::now()
}

/// Relies on `Instant::elapsed`: the whole seconds since `t`, of which nothing is known.
#[verifier::external_body]
fn seconds_since(t: &Instant) -> u64 {
    t.elapsed().as_secs()
}

/// Whether a message set `elapsed_secs` seconds ago is still shown.
pub fn shows_message(elapsed_secs: u64) -> (r: bool)
    ensures
        r == message_shown(elapsed_secs),
{
    elapsed_secs < 5
}

/// A note for the user, with the time it was set.
pub struct StatusMessage {
    message: String,
    time: Instant,
}

impl StatusMessage {
    /// The text of the note.
    pub closed spec fn text(&self) -> Seq<char> {
        self.message@
    }

    pub fn from(message: String) -> (r: StatusMessage)
        ensures
            r.text() == message@,
    {
        StatusMessage { message, time: now() }
    }

    /// The message bar `elapsed_secs` seconds after the note was set: its first
    /// `width` characters while it is shown, else nothing.
    pub fn bar_text_after(&self, elapsed_secs: u64, width: usize) -> (r: String)
        ensures
            r@ == if message_shown(elapsed_secs) {
                self.text().take(if width < self.text().len() { width as int } else { self.text().len() as int })
            } else {
                Seq::empty()
            },
    {
        if !shows_message(elapsed_secs) {
            return String::new();
        }
        let n = self.message.as_str().unicode_len();
        let cut = if width < n {
            width
        } else {
            n
        };
        self.message.as_str().substring_char(0, cut).to_owned()
    }

    /// The message bar now: the first `width` characters of the note, or nothing once
    /// it has been shown long enough.
    pub fn bar_text(&self, width: usize) -> (r: String)
        ensures
            r@ == Seq::<char>::empty() || r@ == self.text().take(
                if width < self.text().len() { width as int } else { self.text().len() as int },
            ),
    {
        let elapsed = seconds_since(&self.time);
        self.bar_text_after(elapsed, width)
    }
}

/// The state of an editing session apart from the screen: the document, the cursor,
/// the scroll offset, the note for the user, and whether to quit.
pub struct Editor {
    pub quit: bool,
    pub cursor_position: CursorPosition,
    pub document: Document,
    pub offset: CursorPosition,
    pub status_message: StatusMessage,
}

/// The new offset along one axis.
fn scroll_axis(pos: usize, off: usize, size: usize) -> (r: usize)
    ensures
        r == scrolled_axis(pos as int, off as int, size as int),
{
    if pos < off {
        pos
    } else if pos >= off.saturating_add(size) {
        pos.saturating_sub(size).saturating_add(1)
    } else {
        off
    }
}

impl Editor {
    /// A session on `document` with the cursor and the window at the start.
    pub fn new(document: Document, status_message: StatusMessage) -> (r: Editor)
        ensures
            r.document == document,
            r.status_message == status_message,
            r.cursor_position == (CursorPosition { x: 0, y: 0 }),
            r.offset == (CursorPosition { x: 0, y: 0 }),
            !r.quit,
    {
        Editor {
            quit: false,
            cursor_position: CursorPosition { x: 0, y: 0 },
            document,
            offset: CursorPosition { x: 0, y: 0 },
            status_message,
        }
    }

    /// Moves the window as little as needed to show the cursor.
    pub fn scroll(&mut self, size: &TerminalSize)
        ensures
            final(self).offset == scrolled(old(self).cursor_position, old(self).offset, *size),
            final(self).cursor_position == old(self).cursor_position,
            final(self).document == old(self).document,
            final(self).quit == old(self).quit,
            size.height > 0 ==> final(self).offset.y <= final(self).cursor_position.y
                < final(self).offset.y + size.height,
            size.width > 0 ==> final(self).offset.x <= final(self).cursor_position.x
                < final(self).offset.x + size.width,
    {
        let x = scroll_axis(self.cursor_position.x, self.offset.x, size.width as usize);
        let y = scroll_axis(self.cursor_position.y, self.offset.y, size.height as usize);
        self.offset = CursorPosition { x, y };
    }

    /// The length of line `y`, zero past the last line.
    fn line_length(&self, y: usize) -> (r: usize)
        requires
            self.document.wf(),
        ensures
            r == line_len(self.document@, y as int),
    {
        match self.document.row(y) {
            Some(row) => row.length(),
            None => 0,
        }
    }

    /// Moves the cursor for a navigation key; pages are `size.height` lines.
    pub fn move_cursor(&mut self, key: Key, size: &TerminalSize)
        requires
            old(self).document.wf(),
        ensures
            final(self).cursor_position == after_move(
                old(self).document@,
                old(self).cursor_position,
                key,
                size.height as int,
            ),
            final(self).cursor_position.x <= line_len(
                final(self).document@,
                final(self).cursor_position.y as int,
            ),
            final(self).document == old(self).document,
            final(self).offset == old(self).offset,
            final(self).quit == old(self).quit,
    {
        let mut x = self.cursor_position.x;
        let mut y = self.cursor_position.y;
        let terminal_height = size.height as usize;
        let height = self.document.length();
        let width = self.line_length(y);
        match key {
            Key::Up => {
                y = y.saturating_sub(1);
            },
            Key::Down => {
                if y < height {
                    y = y + 1;
                }
            },
            Key::Left => {
                if x > 0 {
                    x = x - 1;
                } else if y > 0 {
                    y = y - 1;
                    x = self.line_length(y);
                }
            },
            Key::Right => {
                if x < width {
                    x = x + 1;
                } else if y < height {
                    y = y + 1;
                    x = 0;
                }
            },
            Key::PageUp => {
                y = if y > terminal_height {
                    y - terminal_height
                } else {
                    0
                };
            },
            Key::PageDown => {
                y = if y.saturating_add(terminal_height) < height {
                    y + terminal_height
                } else {
                    height
                };
            },
            Key::Home => {
                x = 0;
            },
            Key::End => {
                x = width;
            },
            _ => {},
        }
        let width = self.line_length(y);
        if x > width {
            x = width;
        }
        self.cursor_position = CursorPosition { x, y };
    }

    /// Handles one key: edits the document, moves the cursor, or asks to quit, and then
    /// scrolls the window to the cursor.
    pub fn process_key(&mut self, key: Key, size: &TerminalSize)
        requires
            old(self).document.wf(),
        ensures
            final(self).document.wf(),
            (final(self).document@, final(self).cursor_position) == after_key(
                old(self).document@,
                old(self).cursor_position,
                key,
                size.height as int,
            ),
            final(self).offset == scrolled(final(self).cursor_position, old(self).offset, *size),
            final(self).quit == (old(self).quit || key == Key::Quit),
            final(self).document.name() == old(self).document.name(),
    {
        match key {
            Key::Quit => {
                self.quit = true;
            },
            Key::Char(c) => {
                self.document.insert(&self.cursor_position, c);
                self.move_cursor(Key::Right, size);
            },
            Key::Delete => {
                self.document.delete(&self.cursor_position);
            },
            Key::Backspace => {
                if self.cursor_position.x > 0 || self.cursor_position.y > 0 {
                    self.move_cursor(Key::Left, size);
                    self.document.delete(&self.cursor_position);
                }
            },
            Key::Up | Key::Down | Key::Left | Key::Right | Key::PageUp | Key::PageDown
            | Key::Home | Key::End => {
                self.move_cursor(key, size);
            },
            Key::Other => {},
        }
        self.scroll(size);
    }

    /// Where the cursor is drawn, relative to the window.
    pub fn screen_cursor(&self) -> (r: CursorPosition)
        ensures
            r.x == saturated(self.cursor_position.x - self.offset.x),
            r.y == saturated(self.cursor_position.y - self.offset.y),
    {
        CursorPosition {
            x: self.cursor_position.x.saturating_sub(self.offset.x),
            y: self.cursor_position.y.saturating_sub(self.offset.y),
        }
    }
}

} // verus!
