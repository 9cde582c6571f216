use crate::editor::{saturated, CursorPosition, Editor, TerminalSize};
use crate::row::{clusters, push_char, visible};
use vstd::prelude::*;
use vstd::string::StrSliceExecFns;
use vstd::string::StringExecFns;

verus! {

/// The decimal digit `d`.
pub open spec fn digit_char(d: nat) -> char {
    seq!['0', '1', '2', '3', '4', '5', '6', '7', '8', '9'][d as int]
}

/// The decimal numeral of `n`, without leading zeros.
pub open spec fn digits(n: nat) -> Seq<char>
    decreases n,
{
    if n < 10 {
        seq![digit_char(n)]
    } else {
        digits(n / 10).push(digit_char(n % 10))
    }
}

/// `k` spaces.
pub open spec fn spaces(k: nat) -> Seq<char> {
    Seq::new(k, |i: int| ' ')
}

/// `s` padded with spaces, or cut, to exactly `w` characters.
pub open spec fn fit(s: Seq<char>, w: nat) -> Seq<char> {
    if s.len() < w {
        s + spaces((w - s.len()) as nat)
    } else {
        s.take(w as int)
    }
}

/// The first `k` characters of `s`, or all of it where it is shorter.
pub open spec fn prefix(s: Seq<char>, k: nat) -> Seq<char> {
    if k < s.len() {
        s.take(k as int)
    } else {
        s
    }
}

/// The status bar, `w` wide: the file name (at most 20 characters, a space where there
/// is none), the number of lines, and the cursor's line and column counted from one.
pub open spec fn status_line(name: Option<Seq<char>>, lines: nat, at: CursorPosition, w: nat) -> Seq<char> {
    let shown_name = match name {
        Some(n) => prefix(n, 20),
        None => seq![' '],
    };
    fit(
        shown_name + " - "@ + digits(lines) + " Lines.  Current line - Ln "@ + digits(
            (at.y + 1) as nat,
        ) + ", Col "@ + digits((at.x + 1) as nat),
        w,
    )
}

/// The greeting shown on an empty document, `w` wide: a tilde, then the title centred.
pub open spec fn welcome(version: Seq<char>, w: nat) -> Seq<char> {
    let title = "TEXT EDITOR --version "@ + version;
    let padding = saturated(w - title.len()) / 2;
    prefix(seq!['~'] + spaces(saturated(padding - 1) as nat) + title, w)
}

/// What one line of the screen shows.
pub enum ScreenLine {
    /// Part of a document line.
    Text(String),
    /// The greeting of an empty document.
    Welcome,
    /// A mark for a line past the end of the document.
    Filler,
}

/// The decimal digit `d`.
fn digit(d: u8) -> (c: char)
    requires
        d < 10,
    ensures
        c == digit_char(d as nat),
{
    match d {
        0 => '0',
        1 => '1',
        2 => '2',
        3 => '3',
        4 => '4',
        5 => '5',
        6 => '6',
        7 => '7',
        8 => '8',
        _ => '9',
    }
}

/// The decimal numeral of `n`.
pub fn decimal(n: u128) -> (r: String)
    ensures
        r@ == digits(n as nat),
    decreases n,
{
    if n < 10 {
        let mut s = String::new();
        push_char(&mut s, digit(n as u8));
        assert(s@ =~= digits(n as nat));
        s
    } else {
        let mut s = decimal(n / 10);
        push_char(&mut s, digit((n % 10) as u8));
        s
    }
}

/// Adds `k` spaces to `s`.
fn push_spaces(s: &mut String, k: usize)
    ensures
        final(s)@ == old(s)@ + spaces(k as nat),
{
    let mut i: usize = 0;
    while i < k
        invariant
            i <= k,
            s@ == old(s)@ + spaces(i as nat),
        decreases k - i,
    {
        push_char(s, ' ');
        i = i + 1;
        assert(s@ =~= old(s)@ + spaces(i as nat));
    }
}

/// The first `k` characters of `s`.
fn prefix_of(s: &str, k: usize) -> (r: String)
    ensures
        r@ == prefix(s@, k as nat),
{
    let n = s.unicode_len();
    if k < n {
        s.substring_char(0, k).to_owned()
    } else {
        assert(s@.subrange(0, n as int) =~= s@);
        s.substring_char(0, n).to_owned()
    }
}

/// `s` padded with spaces, or cut, to `w` characters.
fn fit_to(s: String, w: usize) -> (r: String)
    ensures
        r@ == fit(s@, w as nat),
{
    let n = s.as_str().unicode_len();
    if n < w {
        let mut s = s;
        push_spaces(&mut s, w - n);
        s
    } else {
        prefix_of(s.as_str(), w)
    }
}

/// The greeting line for an empty document, `width` wide.
pub fn welcome_line(version: &str, width: usize) -> (r: String)
    ensures
        r@ == welcome(version@, width as nat),
{
    let mut title = "TEXT EDITOR --version ".to_owned();
    title.append(version);
    let n = title.as_str().unicode_len();
    let padding = width.saturating_sub(n) / 2;
    let mut line = String::new();
    push_char(&mut line, '~');
    push_spaces(&mut line, padding.saturating_sub(1));
    line.append(title.as_str());
    assert(line@ =~= seq!['~'] + spaces(saturated(padding - 1) as nat) + title@);
    prefix_of(line.as_str(), width)
}

impl Editor {
    /// The status bar, `width` wide.
    pub fn status_text(&self, width: usize) -> (r: String)
        ensures
            r@ == status_line(
                match self.document.name() {
                    Some(n) => Some(n@),
                    None => None,
                },
                self.document@.len(),
                self.cursor_position,
                width as nat,
            ),
    {
        let mut status = match self.document.source_name() {
            Some(name) => prefix_of(name.as_str(), 20),
            None => {
                let mut blank = String::new();
                push_char(&mut blank, ' ');
                blank
            },
        };
        status.append(" - ");
        let lines = decimal(self.document.length() as u128);
        status.append(lines.as_str());
        status.append(" Lines.  Current line - Ln ");
        let line = decimal(self.cursor_position.y as u128 + 1);
        status.append(line.as_str());
        status.append(", Col ");
        let column = decimal(self.cursor_position.x as u128 + 1);
        status.append(column.as_str());
        fit_to(status, width)
    }

    /// What screen line `terminal_row` shows: the visible part of the document line
    /// there; past the document's end, the greeting a third of the way down an empty
    /// document, and a filler mark elsewhere.
    pub fn screen_line(&self, terminal_row: u16, size: &TerminalSize) -> (r: ScreenLine)
        requires
            self.document.wf(),
        ensures
            ({
                let y = terminal_row + self.offset.y;
                match r {
                    ScreenLine::Text(t) => y < self.document@.len() && t@ == visible(
                        clusters(self.document@[y]),
                        self.offset.x as nat,
                        saturated(self.offset.x + size.width) as nat,
                    ).flatten(),
                    ScreenLine::Welcome => y >= self.document@.len() && self.document@.len() == 0
                        && terminal_row == size.height / 3,
                    ScreenLine::Filler => y >= self.document@.len() && !(self.document@.len() == 0
                        && terminal_row == size.height / 3),
                }
            }),
    {
        let t = terminal_row as usize;
        let n = self.document.length();
        if self.offset.y < n && t < n - self.offset.y {
            let y = t + self.offset.y;
            match self.document.row(y) {
                Some(row) => {
                    return ScreenLine::Text(
                        row.render(self.offset.x, self.offset.x.saturating_add(size.width as usize)),
                    );
                },
                None => {},
            }
        }
        if self.document.is_empty() && terminal_row == size.height / 3 {
            ScreenLine::Welcome
        } else {
            ScreenLine::Filler
        }
    }
}

} // verus!
