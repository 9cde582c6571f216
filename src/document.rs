use crate::editor::CursorPosition;
use crate::row::{after, before, clusters, lemma_split_then_append, segmented, Row};
use vstd::prelude::*;
use vstd::string::StrSliceExecFns;
use vstd::utf8::encode_utf8;

verus! {

/// The pieces of `s` between newline characters: one more than there are newlines.
pub open spec fn line_pieces(s: Seq<char>) -> Seq<Seq<char>>
    decreases s.len(),
{
    if s.len() == 0 {
        seq![Seq::empty()]
    } else {
        let p = line_pieces(s.drop_last());
        if s.last() == '\n' {
            p.push(Seq::empty())
        } else {
            p.update(p.len() - 1, p.last().push(s.last()))
        }
    }
}

/// A line without the carriage return that ended it, if there is one.
pub open spec fn strip_cr(l: Seq<char>) -> Seq<char> {
    if l.len() > 0 && l.last() == '\r' {
        l.drop_last()
    } else {
        l
    }
}

/// The lines of `s`: split at each `\n`, a `\r` just before it dropped, and no line
/// after a final `\n`.
pub open spec fn split_lines(s: Seq<char>) -> Seq<Seq<char>> {
    let p = line_pieces(s);
    let ended = p.drop_last().map_values(|l: Seq<char>| strip_cr(l));
    if p.last().len() == 0 {
        ended
    } else {
        ended.push(p.last())
    }
}

/// The number of clusters of line `y` of `d`, and zero past its last line.
pub open spec fn line_len(d: Seq<Seq<char>>, y: int) -> nat {
    if 0 <= y < d.len() {
        clusters(d[y]).len()
    } else {
        0
    }
}

/// `d` after a line break at `at`.
pub open spec fn with_line_break(d: Seq<Seq<char>>, at: CursorPosition) -> Seq<Seq<char>> {
    if at.y > d.len() {
        d
    } else if at.y == d.len() {
        d.push(Seq::empty())
    } else {
        let s = d[at.y as int];
        d.update(at.y as int, before(s, at.x as nat)).insert(at.y + 1, after(s, at.x as nat))
    }
}

/// `d` after typing `c` at `at`.
pub open spec fn with_char(d: Seq<Seq<char>>, at: CursorPosition, c: char) -> Seq<Seq<char>> {
    if c == '\n' {
        with_line_break(d, at)
    } else if at.y == d.len() {
        d.push(seq![c])
    } else if at.y < d.len() {
        let s = d[at.y as int];
        d.update(at.y as int, before(s, at.x as nat) + seq![c] + after(s, at.x as nat))
    } else {
        d
    }
}

/// `d` after deleting at `at`: the line break is removed where `at` is at the end of a
/// line that has another after it, else the cluster at `at`, if there is one.
pub open spec fn with_delete(d: Seq<Seq<char>>, at: CursorPosition) -> Seq<Seq<char>> {
    if at.y >= d.len() {
        d
    } else if at.x == line_len(d, at.y as int) && at.y + 1 < d.len() {
        d.update(at.y as int, d[at.y as int] + d[at.y + 1]).remove(at.y + 1)
    } else if at.x < line_len(d, at.y as int) {
        let s = d[at.y as int];
        d.update(at.y as int, before(s, at.x as nat) + after(s, at.x as nat + 1))
    } else {
        d
    }
}

/// The bytes of `d` as saved: each line in UTF-8, followed by `\n`.
pub open spec fn saved_bytes(d: Seq<Seq<char>>) -> Seq<u8> {
    d.map_values(|l: Seq<char>| encode_utf8(l).push(10u8)).flatten()
}

/// Relies on `str::chars`: the characters of `s`, in order.
#[verifier::external_body]
fn chars_of(s: &str) -> (r: Vec<char>)
    ensures
        r@ == s@,
{
    s.chars().collect()
}

/// `l` without a final carriage return.
fn strip_cr_string(l: String) -> (r: String)
    ensures
        r@ == strip_cr(l@),
{
    let n = l.as_str().unicode_len();
    if n > 0 && l.as_str().get_char(n - 1) == '\r' {
        l.as_str().substring_char(0, n - 1).to_owned()
    } else {
        l
    }
}

/// The lines of `text`, as `str::lines` gives them.
pub fn lines_of(text: &str) -> (r: Vec<String>)
    ensures
        r@.map_values(|l: String| l@) == split_lines(text@),
{
    let chars = chars_of(text);
    let mut lines: Vec<String> = Vec::new();
    let mut cur = String::new();
    let mut i: usize = 0;
    while i < chars.len()
        invariant
            i <= chars.len(),
            chars@ == text@,
            line_pieces(chars@.take(i as int)).len() >= 1,
            lines@.map_values(|l: String| l@) == line_pieces(chars@.take(i as int)).drop_last().map_values(
                |l: Seq<char>| strip_cr(l),
            ),
            cur@ == line_pieces(chars@.take(i as int)).last(),
        decreases chars.len() - i,
    {
        let ghost pre = chars@.take(i as int);
        let ghost p = line_pieces(pre);
        let c = chars[i];
        assert(chars@.take(i + 1).drop_last() =~= pre);
        assert(chars@.take(i + 1).last() == c);
        if c == '\n' {
            let ended = strip_cr_string(cur);
            lines.push(ended);
            cur = String::new();
            proof {
                let np = line_pieces(chars@.take(i + 1));
                assert(np == p.push(Seq::empty()));
                assert(np.drop_last() =~= p);
                assert(p =~= p.drop_last().push(p.last()));
                p.drop_last().lemma_push_map_commute(|l: Seq<char>| strip_cr(l), p.last());
                assert(cur@ =~= np.last());
            }
        } else {
            crate::row::push_char(&mut cur, c);
            proof {
                let np = line_pieces(chars@.take(i + 1));
                assert(np == p.update(p.len() - 1, p.last().push(c)));
                assert(np.drop_last() =~= p.drop_last());
            }
        }
        i = i + 1;
    }
    assert(chars@.take(i as int) =~= text@);
    if cur.as_str().unicode_len() > 0 {
        proof {
            lines@.lemma_push_map_commute(|l: String| l@, cur);
        }
        lines.push(cur);
    }
    lines
}

/// The lines of a text, in order, and the name of the file they belong to, if any.
pub struct Document {
    rows: Vec<Row>,
    pub file_name: Option<String>,
}

impl View for Document {
    type V = Seq<Seq<char>>;

    closed spec fn view(&self) -> Seq<Seq<char>> {
        self.rows@.map_values(|r: Row| r@)
    }
}

impl Default for Document {
    fn default() -> (r: Document)
        ensures
            r@ == Seq::<Seq<char>>::empty(),
            r.wf(),
            r.name() is None,
    {
        let d = Document { rows: Vec::new(), file_name: None };
        assert(d@ =~= Seq::<Seq<char>>::empty());
        d
    }
}

impl Document {
    /// The name of the file the document belongs to.
    pub closed spec fn name(&self) -> Option<String> {
        self.file_name
    }

    /// Every row keeps the count of its clusters.
    pub closed spec fn wf(&self) -> bool {
        forall|i: int| 0 <= i < self.rows@.len() ==> (#[trigger] self.rows@[i]).wf()
    }

    /// Each line of a well-formed document is cut into clusters that give it back.
    pub proof fn lemma_lines_segmented(&self)
        requires
            self.wf(),
        ensures
            forall|i: int| 0 <= i < self@.len() ==> segmented(#[trigger] self@[i]),
    {
        assert forall|i: int| 0 <= i < self@.len() implies segmented(#[trigger] self@[i]) by {
            assert(self.rows@[i].wf());
        }
    }

    /// A document of the lines of `contents`, as read from `file_name`.
    pub fn from_contents(contents: &str, file_name: Option<String>) -> (r: Document)
        ensures
            r.wf(),
            r@ == split_lines(contents@),
            r.name() == file_name,
    {
        let lines = lines_of(contents);
        let mut rows: Vec<Row> = Vec::new();
        let mut i: usize = 0;
        while i < lines.len()
            invariant
                i <= lines.len(),
                rows@.len() == i,
                forall|j: int| 0 <= j < i ==> (#[trigger] rows@[j]).wf() && rows@[j]@
                    == lines@[j]@,
            decreases lines.len() - i,
        {
            rows.push(Row::from(lines[i].as_str()));
            i = i + 1;
        }
        let d = Document { rows, file_name };
        assert(d@ =~= lines@.map_values(|l: String| l@));
        d
    }

    pub fn row(&self, index: usize) -> (r: Option<&Row>)
        requires
            self.wf(),
        ensures
            r is Some <==> index < self@.len(),
            r is Some ==> r->0@ == self@[index as int] && r->0.wf(),
    {
        if index < self.rows.len() {
            Some(&self.rows[index])
        } else {
            None
        }
    }

    /// The name of the file the document belongs to.
    pub fn source_name(&self) -> (r: &Option<String>)
        ensures
            *r == self.name(),
    {
        &self.file_name
    }

    pub fn is_empty(&self) -> (r: bool)
        ensures
            r == (self@.len() == 0),
    {
        self.rows.len() == 0
    }

    pub fn length(&self) -> (r: usize)
        ensures
            r == self@.len(),
    {
        self.rows.len()
    }

    /// Breaks line `at.y` in two at column `at.x`; on the line just past the end it
    /// adds an empty line, and further on it does nothing.
    pub fn insert_new_line(&mut self, at: &CursorPosition)
        requires
            old(self).wf(),
        ensures
            final(self).wf(),
            final(self)@ == with_line_break(old(self)@, *at),
            final(self).name() == old(self).name(),
    {
        let len = self.rows.len();
        if at.y > len {
            return;
        }
        if at.y == len {
            self.rows.push(Row::default());
            assert(self@ =~= old(self)@.push(Seq::empty()));
            return;
        }
        let new_row = self.rows[at.y].split(at.x);
        self.rows.insert(at.y + 1, new_row);
        assert(self@ =~= with_line_break(old(self)@, *at));
    }

    /// Types `character` at `at`: a newline breaks the line, any other character goes
    /// into line `at.y`, or into a new last line where `at.y` is just past the end.
    pub fn insert(&mut self, at: &CursorPosition, character: char)
        requires
            old(self).wf(),
        ensures
            final(self).wf(),
            final(self)@ == with_char(old(self)@, *at, character),
            final(self).name() == old(self).name(),
    {
        if character == '\n' {
            self.insert_new_line(at);
            return;
        }
        let len = self.rows.len();
        if at.y == len {
            let mut row = Row::default();
            row.insert(0, character);
            proof {
                let e = Seq::<char>::empty();
                if clusters(e).len() > 0 {
                    assert(clusters(e) =~= seq![clusters(e)[0]] + clusters(e).skip(1));
                    vstd::seq_lib::lemma_flatten_concat(seq![clusters(e)[0]], clusters(e).skip(1));
                    seq![clusters(e)[0]].lemma_flatten_one_element();
                }
                assert(before(e, 0) =~= e);
                assert(row@ =~= seq![character]);
            }
            self.rows.push(row);
            assert(self@ =~= old(self)@.push(seq![character]));
        } else if at.y < len {
            self.rows[at.y].insert(at.x, character);
            assert(self@ =~= with_char(old(self)@, *at, character));
        }
    }

    /// Deletes at `at`: at the end of a line that has another after it the two lines
    /// are joined, else the cluster at `at` goes, where there is one.
    pub fn delete(&mut self, at: &CursorPosition)
        requires
            old(self).wf(),
        ensures
            final(self).wf(),
            final(self)@ == with_delete(old(self)@, *at),
            final(self).name() == old(self).name(),
    {
        let len = self.rows.len();
        if at.y >= len {
            return;
        }
        if at.x == self.rows[at.y].length() && at.y < len - 1 {
            let next_row = self.rows.remove(at.y + 1);
            self.rows[at.y].append(&next_row);
            assert(self@ =~= with_delete(old(self)@, *at));
        } else {
            self.rows[at.y].delete(at.x);
            assert(self@ =~= with_delete(old(self)@, *at));
        }
    }

    /// The bytes that saving writes: each line followed by `\n`.
    pub fn saved_bytes(&self) -> (r: Vec<u8>)
        ensures
            r@ == saved_bytes(self@),
    {
        let ghost d = self@;
        let ghost enc = |l: Seq<char>| encode_utf8(l).push(10u8);
        let mut out: Vec<u8> = Vec::new();
        let mut i: usize = 0;
        assert(d.take(0).map_values(enc) =~= Seq::<Seq<u8>>::empty());
        while i < self.rows.len()
            invariant
                i <= self.rows.len(),
                d == self@,
                enc == (|l: Seq<char>| encode_utf8(l).push(10u8)),
                out@ == d.take(i as int).map_values(enc).flatten(),
            decreases self.rows.len() - i,
        {
            let bytes = self.rows[i].as_bytes();
            let ghost start = out@;
            let mut j: usize = 0;
            while j < bytes.len()
                invariant
                    j <= bytes@.len(),
                    out@ == start + bytes@.take(j as int),
                decreases bytes@.len() - j,
            {
                out.push(bytes[j]);
                j = j + 1;
                assert(out@ =~= start + bytes@.take(j as int));
            }
            out.push(10u8);
            proof {
                assert(bytes@.take(j as int) =~= bytes@);
                assert(d.take(i + 1).map_values(enc) =~= d.take(i as int).map_values(enc).push(
                    enc(d[i as int]),
                ));
                d.take(i as int).map_values(enc).lemma_flatten_push(enc(d[i as int]));
                assert(out@ =~= start + enc(d[i as int]));
            }
            i = i + 1;
        }
        assert(d.take(i as int) =~= d);
        out
    }
}

/// Breaking line `at.y` at column `at.x` and then deleting at the same place joins the
/// two parts again and gives the document back, where the head that the break leaves
/// has exactly `at.x` clusters.
pub proof fn lemma_break_then_delete(d: Seq<Seq<char>>, at: CursorPosition)
    requires
        forall|i: int| 0 <= i < d.len() ==> segmented(#[trigger] d[i]),
        at.y < d.len(),
        clusters(before(d[at.y as int], at.x as nat)).len() == at.x,
    ensures
        with_delete(with_line_break(d, at), at) == d,
{
    let s = d[at.y as int];
    assert(segmented(s));
    lemma_split_then_append(s, at.x as nat);
    let e = with_line_break(d, at);
    assert(e[at.y as int] == before(s, at.x as nat));
    assert(e[at.y + 1] == after(s, at.x as nat));
    assert(with_delete(e, at) =~= d);
}

} // verus!
