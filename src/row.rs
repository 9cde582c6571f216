use unicode_segmentation::UnicodeSegmentation;
use vstd::prelude::*;
use vstd::seq_lib::lemma_flatten_concat;
use vstd::string::StrSliceExecFns;
use vstd::string::StringExecFns;
use vstd::utf8::encode_utf8;

verus! {

/// The extended grapheme clusters of `s`, in order.
pub uninterp spec fn clusters(s: Seq<char>) -> Seq<Seq<char>>;

/// `s` is cut into non-empty clusters that, joined in order, give `s` back.
pub open spec fn segmented(s: Seq<char>) -> bool {
    &&& clusters(s).flatten() == s
    &&& forall|i: int| 0 <= i < clusters(s).len() ==> (#[trigger] clusters(s)[i]).len() > 0
}

/// The characters of the first `k` clusters of `s` (all of `s` once `k` reaches its end).
pub open spec fn before(s: Seq<char>, k: nat) -> Seq<char> {
    let g = clusters(s);
    if k < g.len() {
        g.take(k as int).flatten()
    } else {
        g.flatten()
    }
}

/// The characters of the clusters of `s` from cluster `k` on (none once `k` reaches its end).
pub open spec fn after(s: Seq<char>, k: nat) -> Seq<char> {
    let g = clusters(s);
    if k < g.len() {
        g.skip(k as int).flatten()
    } else {
        Seq::empty()
    }
}

/// How a cluster is drawn: a tab as one space, anything else as it is.
pub open spec fn shown(c: Seq<char>) -> Seq<char> {
    if c == seq!['\t'] {
        seq![' ']
    } else {
        c
    }
}

/// The clusters drawn for the window `[start, end)` of `g`: `end` is clamped to the
/// number of clusters and `start` to `end`.
pub open spec fn visible(g: Seq<Seq<char>>, start: nat, end: nat) -> Seq<Seq<char>> {
    let hi = if end < g.len() {
        end
    } else {
        g.len()
    };
    let lo = if start < hi {
        start
    } else {
        hi
    };
    g.subrange(lo as int, hi as int).map_values(|c: Seq<char>| shown(c))
}

/// Relies on `UnicodeSegmentation::graphemes(s, true)` of unicode-segmentation: the
/// extended grapheme clusters of `s` in order, each a non-empty slice of `s`, which
/// together make up all of `s`.
#[verifier::external_body]
fn graphemes(s: &str) -> (r: Vec<String>)
    ensures
        r@.map_values(|g: String| g@) == clusters(s@),
        r@.map_values(|g: String| g@).flatten() == s@,
        forall|i: int| 0 <= i < r@.len() ==> (#[trigger] r@[i])@.len() > 0,
{
    s.graphemes(true).map(String::from).collect()
}

/// Relies on `String::push`: appends one character.
#[verifier::external_body]
pub(crate) fn push_char(s: &mut String, c: char)
    ensures
        final(s)@ == old(s)@.push(c),
{
    s.push(c)
}

/// The clusters of `s`, one string each.
fn segment(s: &String) -> (r: Vec<String>)
    ensures
        r@.map_values(|g: String| g@) == clusters(s@),
        segmented(s@),
{
    let r = graphemes(s.as_str());
    proof {
        let gv = r@.map_values(|g: String| g@);
        assert forall|i: int| 0 <= i < clusters(s@).len() implies (#[trigger] clusters(
            s@,
        )[i]).len() > 0 by {
            assert(gv[i] == r@[i]@);
        }
    }
    r
}

/// The strings `g[lo..hi]` joined.
fn join_range(g: &Vec<String>, lo: usize, hi: usize) -> (r: String)
    requires
        lo <= hi <= g.len(),
    ensures
        r@ == g@.map_values(|x: String| x@).subrange(lo as int, hi as int).flatten(),
{
    let ghost gv = g@.map_values(|x: String| x@);
    let mut r = String::new();
    let mut i: usize = lo;
    assert(gv.subrange(lo as int, lo as int) =~= Seq::<Seq<char>>::empty());
    while i < hi
        invariant
            lo <= i <= hi <= g.len(),
            gv == g@.map_values(|x: String| x@),
            r@ == gv.subrange(lo as int, i as int).flatten(),
        decreases hi - i,
    {
        proof {
            assert(gv.subrange(lo as int, i + 1) =~= gv.subrange(lo as int, i as int).push(
                gv[i as int],
            ));
            gv.subrange(lo as int, i as int).lemma_flatten_push(gv[i as int]);
        }
        r.append(g[i].as_str());
        i = i + 1;
    }
    r
}

/// Whether a cluster is a single tab.
fn is_tab(c: &String) -> (r: bool)
    ensures
        r == (c@ == seq!['\t']),
{
    let s = c.as_str();
    if s.unicode_len() == 1 {
        let first = s.get_char(0);
        if first == '\t' {
            assert(s@ =~= seq!['\t']);
        }
        first == '\t'
    } else {
        false
    }
}

/// The clusters of `g` joined, `g` taken whole or without its first `k`.
proof fn lemma_take_skip(g: Seq<Seq<char>>, k: int)
    requires
        0 <= k <= g.len(),
    ensures
        g.take(k).flatten() + g.skip(k).flatten() == g.flatten(),
{
    lemma_flatten_concat(g.take(k), g.skip(k));
    assert(g.take(k) + g.skip(k) =~= g);
}

/// One line of text, with the number of its grapheme clusters kept beside it.
pub struct Row {
    string: String,
    len: usize,
}

impl View for Row {
    type V = Seq<char>;

    closed spec fn view(&self) -> Seq<char> {
        self.string@
    }
}

impl Default for Row {
    fn default() -> (r: Row)
        ensures
            r@ == Seq::<char>::empty(),
            r.wf(),
    {
        let string = String::new();
        let g = segment(&string);
        Row { string, len: g.len() }
    }
}

impl Row {
    /// The number of clusters as last counted.
    pub closed spec fn cached_len(&self) -> nat {
        self.len as nat
    }

    /// The count is that of the text's clusters.
    pub open spec fn wf(&self) -> bool {
        &&& self.cached_len() == clusters(self@).len()
        &&& segmented(self@)
    }

    pub fn from(slice: &str) -> (r: Row)
        ensures
            r@ == slice@,
            r.wf(),
    {
        let string = slice.to_owned();
        let g = segment(&string);
        Row { string, len: g.len() }
    }

    /// The text drawn for clusters `start` to `end`: a tab becomes one space, and
    /// both bounds are clamped so that nothing past the row is read.
    pub fn render(&self, start: usize, end: usize) -> (r: String)
        requires
            self.wf(),
        ensures
            r@ == visible(clusters(self@), start as nat, end as nat).flatten(),
    {
        let g = segment(&self.string);
        let ghost gv = g@.map_values(|x: String| x@);
        let hi = if end < g.len() {
            end
        } else {
            g.len()
        };
        let lo = if start < hi {
            start
        } else {
            hi
        };
        let ghost shown_from = |lo: int, i: int|
            gv.subrange(lo, i).map_values(|c: Seq<char>| shown(c));
        let mut r = String::new();
        let mut i: usize = lo;
        assert(shown_from(lo as int, lo as int) =~= Seq::<Seq<char>>::empty());
        while i < hi
            invariant
                lo <= i <= hi <= g.len(),
                gv == g@.map_values(|x: String| x@),
                shown_from == (|lo: int, i: int|
                    gv.subrange(lo, i).map_values(|c: Seq<char>| shown(c))),
                r@ == shown_from(lo as int, i as int).flatten(),
            decreases hi - i,
        {
            proof {
                assert(shown_from(lo as int, i + 1) =~= shown_from(lo as int, i as int).push(
                    shown(gv[i as int]),
                ));
                shown_from(lo as int, i as int).lemma_flatten_push(shown(gv[i as int]));
            }
            if is_tab(&g[i]) {
                push_char(&mut r, ' ');
                assert(r@ =~= shown_from(lo as int, i as int).flatten() + seq![' ']);
            } else {
                r.append(g[i].as_str());
            }
            i = i + 1;
        }
        r
    }

    pub fn length(&self) -> (r: usize)
        requires
            self.wf(),
        ensures
            r == clusters(self@).len(),
    {
        self.len
    }

    /// Counts the clusters of the text again.
    pub fn update_len(&mut self)
        ensures
            final(self)@ == old(self)@,
            final(self).wf(),
    {
        let g = segment(&self.string);
        self.len = g.len();
    }

    pub fn is_empty(&self) -> (r: bool)
        requires
            self.wf(),
        ensures
            r == (clusters(self@).len() == 0),
            r == (self@.len() == 0),
    {
        proof {
            if clusters(self@).len() > 0 {
                let g = clusters(self@);
                assert(g =~= seq![g[0]] + g.skip(1));
                lemma_flatten_concat(seq![g[0]], g.skip(1));
                seq![g[0]].lemma_flatten_one_element();
            }
        }
        self.len == 0
    }

    /// Puts `character` before the cluster at `at`, or at the end where `at` is past
    /// the last cluster.
    pub fn insert(&mut self, at: usize, character: char)
        requires
            old(self).wf(),
        ensures
            final(self).wf(),
            final(self)@ == before(old(self)@, at as nat) + seq![character] + after(
                old(self)@,
                at as nat,
            ),
    {
        if at >= self.len {
            push_char(&mut self.string, character);
        } else {
            let g = segment(&self.string);
            let ghost gv = g@.map_values(|x: String| x@);
            let mut result = join_range(&g, 0, at);
            push_char(&mut result, character);
            let second_half = join_range(&g, at, g.len());
            result.append(second_half.as_str());
            assert(gv.subrange(0, at as int) =~= gv.take(at as int));
            assert(gv.subrange(at as int, gv.len() as int) =~= gv.skip(at as int));
            self.string = result;
        }
        self.update_len();
    }

    /// Removes the cluster at `at`; nothing happens where there is none.
    pub fn delete(&mut self, at: usize)
        requires
            old(self).wf(),
        ensures
            final(self).wf(),
            final(self)@ == if at < clusters(old(self)@).len() {
                before(old(self)@, at as nat) + after(old(self)@, at as nat + 1)
            } else {
                old(self)@
            },
    {
        if at >= self.len {
            return;
        }
        let g = segment(&self.string);
        let ghost gv = g@.map_values(|x: String| x@);
        let mut first_half = join_range(&g, 0, at);
        let second_half = join_range(&g, at + 1, g.len());
        first_half.append(second_half.as_str());
        assert(gv.subrange(0, at as int) =~= gv.take(at as int));
        assert(gv.subrange(at + 1, gv.len() as int) =~= gv.skip(at + 1));
        assert(at + 1 == gv.len() ==> gv.subrange(at + 1, gv.len() as int).flatten()
            =~= Seq::<char>::empty());
        self.string = first_half;
        self.update_len();
    }

    /// Adds the text of `line` at the end.
    pub fn append(&mut self, line: &Row)
        requires
            old(self).wf(),
        ensures
            final(self).wf(),
            final(self)@ == old(self)@ + line@,
    {
        self.string.append(line.string.as_str());
        self.update_len();
    }

    /// Keeps the first `at` clusters and returns the rest as a new row.
    pub fn split(&mut self, at: usize) -> (r: Row)
        requires
            old(self).wf(),
        ensures
            final(self).wf(),
            r.wf(),
            final(self)@ == before(old(self)@, at as nat),
            r@ == after(old(self)@, at as nat),
    {
        let g = segment(&self.string);
        let ghost gv = g@.map_values(|x: String| x@);
        let cut = if at < g.len() {
            at
        } else {
            g.len()
        };
        let beginning = join_range(&g, 0, cut);
        let remainder = join_range(&g, cut, g.len());
        assert(gv.subrange(0, cut as int) =~= gv.take(cut as int));
        assert(gv.subrange(0, gv.len() as int) =~= gv);
        assert(gv.subrange(cut as int, gv.len() as int) =~= gv.skip(cut as int));
        assert(cut == gv.len() ==> gv.subrange(cut as int, gv.len() as int).flatten()
            =~= Seq::<char>::empty());
        self.string = beginning;
        self.update_len();
        Row::from(remainder.as_str())
    }

    /// The text's UTF-8 encoding.
    pub fn as_bytes(&self) -> (r: &[u8])
        ensures
            r@ == encode_utf8(self@),
    {
        self.string.as_str().as_bytes()
    }
}

/// Splitting a row at any cluster index and appending the returned tail gives the
/// row's text back.
pub proof fn lemma_split_then_append(s: Seq<char>, k: nat)
    requires
        segmented(s),
    ensures
        before(s, k) + after(s, k) == s,
{
    let g = clusters(s);
    if k < g.len() {
        lemma_take_skip(g, k as int);
    } else {
        assert(g.flatten() + Seq::<char>::empty() =~= g.flatten());
    }
}

/// Deleting the cluster at `i`, a single character `c`, and then inserting `c` at `i`
/// gives the row's text back, where the shortened text still has its first `i`
/// clusters where they were.
pub proof fn lemma_delete_then_insert(s: Seq<char>, i: nat, c: char)
    requires
        segmented(s),
        i < clusters(s).len(),
        clusters(s)[i as int] == seq![c],
        segmented(before(s, i) + after(s, i + 1)),
        before(before(s, i) + after(s, i + 1), i) == before(s, i),
    ensures
        ({
            let t = before(s, i) + after(s, i + 1);
            before(t, i) + seq![c] + after(t, i) == s
        }),
{
    let g = clusters(s);
    let t = before(s, i) + after(s, i + 1);
    lemma_split_then_append(t, i);
    assert(after(t, i) =~= t.skip(before(s, i).len() as int));
    assert(after(t, i) =~= after(s, i + 1));
    lemma_take_skip(g, i as int);
    let rest = g.skip(i as int);
    assert(rest =~= seq![g[i as int]] + g.skip(i as int + 1));
    lemma_flatten_concat(seq![g[i as int]], g.skip(i as int + 1));
    seq![g[i as int]].lemma_flatten_one_element();
    if i + 1 >= g.len() {
        assert(g.skip(i as int + 1) =~= Seq::<Seq<char>>::empty());
        assert(g.skip(i as int + 1).flatten() =~= Seq::<char>::empty());
    }
    assert(before(s, i) =~= g.take(i as int).flatten());
}

/// What `render(start, end)` draws is at most `end - start` clusters, and never more
/// clusters than the row holds.
pub proof fn lemma_render_bounded(g: Seq<Seq<char>>, start: nat, end: nat)
    ensures
        visible(g, start, end).len() <= g.len(),
        start <= end ==> visible(g, start, end).len() <= end - start,
{
}

} // verus!
