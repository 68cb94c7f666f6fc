//! Splitting of the byte stream into newline-terminated lines.
use vstd::prelude::*;

verus! {

/// The byte that ends a line.
pub const NEWLINE: u8 = 10;

/// Position of the first newline in `s`, or `s.len()` when there is none.
pub open spec fn first_newline(s: Seq<u8>) -> int
    decreases s.len(),
{
    if s.len() == 0 || s[0] == NEWLINE {
        0
    } else {
        1 + first_newline(s.drop_first())
    }
}

/// The complete lines of `s`, in order, each with its terminating newline.
pub open spec fn complete_lines(s: Seq<u8>) -> Seq<Seq<u8>>
    decreases s.len(),
{
    let cut = first_newline(s);
    if 0 <= cut < s.len() {
        seq![s.subrange(0, cut + 1)] + complete_lines(s.subrange(cut + 1, s.len() as int))
    } else {
        Seq::empty()
    }
}

/// What follows the last newline of `s`: the start of a line not yet ended.
pub open spec fn unfinished_tail(s: Seq<u8>) -> Seq<u8>
    decreases s.len(),
{
    let cut = first_newline(s);
    if 0 <= cut < s.len() {
        unfinished_tail(s.subrange(cut + 1, s.len() as int))
    } else {
        s
    }
}

/// Number of newline bytes in `s`.
pub open spec fn newline_count(s: Seq<u8>) -> nat
    decreases s.len(),
{
    if s.len() == 0 {
        0
    } else {
        newline_count(s.drop_last()) + if s.last() == NEWLINE { 1nat } else { 0nat }
    }
}

/// Concatenation of a sequence of byte strings.
pub open spec fn concat_all(parts: Seq<Seq<u8>>) -> Seq<u8>
    decreases parts.len(),
{
    if parts.len() == 0 {
        Seq::empty()
    } else {
        concat_all(parts.drop_last()) + parts.last()
    }
}

/// A line as the splitter emits it: it ends with a newline and holds no other.
pub open spec fn is_line(l: Seq<u8>) -> bool {
    &&& l.len() > 0
    &&& l.last() == NEWLINE
    &&& forall|i: int| 0 <= i < l.len() - 1 ==> l[i] != NEWLINE
}

/// `first_newline` is in range and points at the first newline, if any.
pub proof fn lemma_first_newline(s: Seq<u8>)
    ensures
        0 <= first_newline(s) <= s.len(),
        first_newline(s) < s.len() ==> s[first_newline(s)] == NEWLINE,
        forall|i: int| 0 <= i < first_newline(s) ==> s[i] != NEWLINE,
    decreases s.len(),
{
    if s.len() == 0 || s[0] == NEWLINE {
    } else {
        let t = s.drop_first();
        lemma_first_newline(t);
        assert forall|i: int| 0 <= i < first_newline(s) implies s[i] != NEWLINE by {
            if i > 0 {
                assert(s[i] == t[i - 1]);
            }
        }
    }
}

/// Appending one byte to `s` moves the first newline only when `s` had none.
pub proof fn lemma_first_newline_push(s: Seq<u8>, b: u8)
    ensures
        first_newline(s) < s.len() ==> first_newline(s.push(b)) == first_newline(s),
        first_newline(s) >= s.len() && b == NEWLINE ==> first_newline(s.push(b)) == s.len(),
        first_newline(s) >= s.len() && b != NEWLINE ==> first_newline(s.push(b)) == s.len() + 1,
    decreases s.len(),
{
    lemma_first_newline(s);
    if s.len() == 0 {
        assert(s.push(b).drop_first().len() == 0);
        assert(first_newline(s.push(b).drop_first()) == 0);
    } else if s[0] == NEWLINE {
    } else {
        lemma_first_newline_push(s.drop_first(), b);
        assert(s.push(b).drop_first() =~= s.drop_first().push(b));
    }
}

/// How one more byte changes the split: a newline closes the unfinished
/// tail into a new last line, any other byte extends the tail.
pub proof fn lemma_split_push(s: Seq<u8>, b: u8)
    ensures
        b == NEWLINE ==> complete_lines(s.push(b)) == complete_lines(s).push(
            unfinished_tail(s).push(b),
        ),
        b == NEWLINE ==> unfinished_tail(s.push(b)) == Seq::<u8>::empty(),
        b != NEWLINE ==> complete_lines(s.push(b)) == complete_lines(s),
        b != NEWLINE ==> unfinished_tail(s.push(b)) == unfinished_tail(s).push(b),
    decreases s.len(),
{
    lemma_first_newline(s);
    lemma_first_newline_push(s, b);
    let t = s.push(b);
    let cut = first_newline(s);
    if cut < s.len() {
        let rest = s.subrange(cut + 1, s.len() as int);
        lemma_split_push(rest, b);
        assert(t.subrange(0, cut + 1) =~= s.subrange(0, cut + 1));
        assert(t.subrange(cut + 1, t.len() as int) =~= rest.push(b));
        if b == NEWLINE {
            assert(seq![s.subrange(0, cut + 1)] + complete_lines(rest).push(
                unfinished_tail(rest).push(b),
            ) =~= (seq![s.subrange(0, cut + 1)] + complete_lines(rest)).push(
                unfinished_tail(rest).push(b),
            ));
        }
    } else if b == NEWLINE {
        assert(t.subrange(0, s.len() as int + 1) =~= t);
        let after = t.subrange(s.len() as int + 1, t.len() as int);
        assert(after.len() == 0);
        assert(complete_lines(after) =~= Seq::<Seq<u8>>::empty());
        assert(seq![t] + Seq::<Seq<u8>>::empty() =~= Seq::<Seq<u8>>::empty().push(t));
        assert(unfinished_tail(after) =~= Seq::<u8>::empty());
    } else {
    }
}

/// Line integrity under chunking: splitting `a` and then feeding `b` behind
/// what `a` left unfinished gives the same lines, and leaves the same tail,
/// as splitting `a + b` at once.
pub proof fn lemma_split_chunked(a: Seq<u8>, b: Seq<u8>)
    ensures
        complete_lines(a + b) == complete_lines(a) + complete_lines(unfinished_tail(a) + b),
        unfinished_tail(a + b) == unfinished_tail(unfinished_tail(a) + b),
    decreases b.len(),
{
    let ta = unfinished_tail(a);
    if b.len() == 0 {
        assert(a + b =~= a);
        assert(ta + b =~= ta);
        lemma_tail_is_settled(a);
        assert(complete_lines(a) + Seq::<Seq<u8>>::empty() =~= complete_lines(a));
    } else {
        let front = b.drop_last();
        let x = b.last();
        lemma_split_chunked(a, front);
        assert(a + b =~= (a + front).push(x));
        assert(ta + b =~= (ta + front).push(x));
        lemma_split_push(a + front, x);
        lemma_split_push(ta + front, x);
        if x == NEWLINE {
            assert((complete_lines(a) + complete_lines(ta + front)).push(
                unfinished_tail(ta + front).push(x),
            ) =~= complete_lines(a) + complete_lines(ta + front).push(
                unfinished_tail(ta + front).push(x),
            ));
        }
    }
}

/// The unfinished tail holds no newline, so splitting it again yields no
/// line and gives it back unchanged.
pub proof fn lemma_tail_is_settled(s: Seq<u8>)
    ensures
        forall|i: int| 0 <= i < unfinished_tail(s).len() ==> unfinished_tail(s)[i] != NEWLINE,
        complete_lines(unfinished_tail(s)) == Seq::<Seq<u8>>::empty(),
        unfinished_tail(unfinished_tail(s)) == unfinished_tail(s),
    decreases s.len(),
{
    lemma_first_newline(s);
    let cut = first_newline(s);
    if cut < s.len() {
        lemma_tail_is_settled(s.subrange(cut + 1, s.len() as int));
    }
}

/// What the split is: the lines, put back together and followed by the
/// tail, are the input; every line ends with its only newline; and there are
/// as many lines as the input has newlines.
pub proof fn lemma_split_is_exact(s: Seq<u8>)
    ensures
        concat_all(complete_lines(s)) + unfinished_tail(s) == s,
        forall|k: int| 0 <= k < complete_lines(s).len() ==> is_line(#[trigger] complete_lines(s)[k]),
        complete_lines(s).len() == newline_count(s),
    decreases s.len(),
{
    if s.len() == 0 {
        assert(concat_all(complete_lines(s)) + unfinished_tail(s) =~= s);
    } else {
        let p = s.drop_last();
        let b = s.last();
        assert(s =~= p.push(b));
        lemma_split_is_exact(p);
        lemma_split_push(p, b);
        lemma_tail_is_settled(p);
        if b == NEWLINE {
            let closed = unfinished_tail(p).push(b);
            let all = complete_lines(p).push(closed);
            assert(all.drop_last() =~= complete_lines(p));
            assert(all.last() == closed);
            assert(concat_all(all) + Seq::<u8>::empty() =~= (concat_all(complete_lines(p))
                + unfinished_tail(p)).push(b));
            assert(is_line(closed));
            assert forall|k: int| 0 <= k < all.len() implies is_line(#[trigger] all[k]) by {
                if k < complete_lines(p).len() {
                    assert(all[k] == complete_lines(p)[k]);
                }
            }
        } else {
            assert(concat_all(complete_lines(p)) + unfinished_tail(p).push(b) =~= (concat_all(
                complete_lines(p),
            ) + unfinished_tail(p)).push(b));
        }
    }
}

/// Lines emitted over a run of reads, by a splitter that starts with
/// `pending` buffered and is fed `chunks` one after the other.
pub open spec fn lines_over_reads(pending: Seq<u8>, chunks: Seq<Seq<u8>>) -> Seq<Seq<u8>>
    decreases chunks.len(),
{
    if chunks.len() == 0 {
        Seq::empty()
    } else {
        lines_over_reads(pending, chunks.drop_last()) + complete_lines(
            tail_over_reads(pending, chunks.drop_last()) + chunks.last(),
        )
    }
}

/// What the splitter of `lines_over_reads` holds back after the last read.
pub open spec fn tail_over_reads(pending: Seq<u8>, chunks: Seq<Seq<u8>>) -> Seq<u8>
    decreases chunks.len(),
{
    if chunks.len() == 0 {
        pending
    } else {
        unfinished_tail(tail_over_reads(pending, chunks.drop_last()) + chunks.last())
    }
}

/// Line integrity: however the server's bytes are cut into reads, a splitter
/// that starts empty emits exactly the newline-terminated slices of the whole
/// stream, one per newline, and holds back what follows the last newline.
pub proof fn lemma_reads_do_not_matter(chunks: Seq<Seq<u8>>)
    ensures
        lines_over_reads(Seq::empty(), chunks) == complete_lines(concat_all(chunks)),
        tail_over_reads(Seq::empty(), chunks) == unfinished_tail(concat_all(chunks)),
        lines_over_reads(Seq::empty(), chunks).len() == newline_count(concat_all(chunks)),
    decreases chunks.len(),
{
    let none = Seq::<u8>::empty();
    if chunks.len() == 0 {
        assert(complete_lines(none) =~= Seq::<Seq<u8>>::empty());
    } else {
        let before = chunks.drop_last();
        lemma_reads_do_not_matter(before);
        lemma_split_chunked(concat_all(before), chunks.last());
    }
    lemma_split_is_exact(concat_all(chunks));
}

/// The byte strings held by a vector of byte vectors.
pub open spec fn rows(v: Seq<Vec<u8>>) -> Seq<Seq<u8>> {
    Seq::new(v.len(), |i: int| v[i]@)
}

/// The rolling read buffer: bytes received that no newline has closed yet.
pub struct LineBuffer {
    pending: Vec<u8>,
}

impl View for LineBuffer {
    type V = Seq<u8>;

    closed spec fn view(&self) -> Seq<u8> {
        self.pending@
    }
}

impl LineBuffer {
    /// An empty buffer.
    pub fn new() -> (buffer: LineBuffer)
        ensures
            buffer@ == Seq::<u8>::empty(),
    {
        LineBuffer { pending: Vec::new() }
    }

    /// Number of bytes held back.
    pub fn pending_len(&self) -> (n: usize)
        ensures
            n == self@.len(),
    {
        self.pending.len()
    }

    /// The bytes held back, oldest first.
    pub fn pending(&self) -> (bytes: &Vec<u8>)
        ensures
            bytes@ == self@,
    {
        &self.pending
    }

    /// Takes one read's worth of bytes and returns the lines it completes, in
    /// order, each with its newline. Bytes behind the last newline stay
    /// buffered for the next read.
    pub fn feed(&mut self, chunk: &[u8]) -> (lines: Vec<Vec<u8>>)
        ensures
            rows(lines@) == complete_lines(old(self)@ + chunk@),
            final(self)@ == unfinished_tail(old(self)@ + chunk@),
    {
        let mut held: Vec<u8> = Vec::new();
        core::mem::swap(&mut held, &mut self.pending);
        let mut lines: Vec<Vec<u8>> = Vec::new();
        let mut current: Vec<u8> = Vec::new();
        proof {
            assert(rows(lines@) =~= complete_lines(Seq::<u8>::empty()));
            assert(Seq::<u8>::empty() + held@ =~= held@);
        }
        scan(held.as_slice(), &mut lines, &mut current, Ghost(Seq::empty()));
        scan(chunk, &mut lines, &mut current, Ghost(held@));
        self.pending = current;
        lines
    }
}

/// Continues a split over `bytes`: `lines` and `current` hold the split of
/// what was `seen` before, and hold the split of `seen + bytes` after.
fn scan(bytes: &[u8], lines: &mut Vec<Vec<u8>>, current: &mut Vec<u8>, Ghost(seen): Ghost<Seq<u8>>)
    requires
        rows(old(lines)@) == complete_lines(seen),
        old(current)@ == unfinished_tail(seen),
    ensures
        rows(final(lines)@) == complete_lines(seen + bytes@),
        final(current)@ == unfinished_tail(seen + bytes@),
{
    let n: usize = bytes.len();
    let mut i: usize = 0;
    assert(seen + bytes@.subrange(0, 0) =~= seen);
    while i < n
        invariant
            i <= n,
            n == bytes@.len(),
            rows(lines@) == complete_lines(seen + bytes@.subrange(0, i as int)),
            current@ == unfinished_tail(seen + bytes@.subrange(0, i as int)),
        decreases n - i,
    {
        let b: u8 = bytes[i];
        proof {
            lemma_split_push(seen + bytes@.subrange(0, i as int), b);
            assert(seen + bytes@.subrange(0, i + 1) =~= (seen + bytes@.subrange(0, i as int)).push(
                b,
            ));
        }
        current.push(b);
        if b == NEWLINE {
            let mut line: Vec<u8> = Vec::new();
            core::mem::swap(&mut line, current);
            let ghost before = lines@;
            lines.push(line);
            assert(rows(lines@) =~= rows(before).push(line@));
        }
        i = i + 1;
    }
    assert(bytes@.subrange(0, n as int) =~= bytes@);
}

} // verus!
