//! Bounded paged storage of text lines.
//!
//! Lines are appended to a queue of pages.  Each page is a contiguous byte
//! buffer of a configured capacity together with the start offsets of its
//! lines.  When the tail page cannot take the next line and the queue is
//! full, the head page is recycled: its lines leave the store, and the
//! global index of the first resident line advances by exactly the number
//! of lines the head page held.  Global indices are assigned at append and
//! never reused.

use vstd::prelude::*;

use crate::command::Command;
use crate::command::accepts;
use crate::command::command_match;
use crate::command::find_first;
use crate::command::first_match;

verus! {

/// A contiguous byte buffer holding consecutive lines, with the byte
/// offset at which each line starts.
pub struct Page {
    buf: Vec<u8>,
    indices: Vec<usize>,
    cap: usize,
}

impl Page {
    /// Number of lines held.
    pub closed spec fn line_count(&self) -> nat {
        self.indices@.len()
    }

    /// Byte offset one past the end of line `i`.
    pub closed spec fn line_end(&self, i: int) -> int {
        if i + 1 < self.indices@.len() {
            self.indices@[i + 1] as int
        } else {
            self.buf@.len() as int
        }
    }

    /// The bytes of line `i`.
    pub closed spec fn spec_line(&self, i: int) -> Seq<u8> {
        self.buf@.subrange(self.indices@[i] as int, self.line_end(i))
    }

    /// The lines held, in order.
    pub closed spec fn lines(&self) -> Seq<Seq<u8>> {
        Seq::new(self.line_count(), |i: int| self.spec_line(i))
    }

    /// Bytes used by the held lines.
    pub closed spec fn fill(&self) -> nat {
        self.buf@.len()
    }

    /// The configured byte capacity.
    pub closed spec fn capacity(&self) -> nat {
        self.cap as nat
    }

    /// Line offsets never decrease and stay within the buffer.
    pub closed spec fn wf(&self) -> bool {
        &&& forall|i: int| 0 <= i < self.indices@.len() ==> self.indices@[i] <= self.buf@.len()
        &&& forall|i: int|
            0 <= i && i + 1 < self.indices@.len() ==> #[trigger] self.indices@[i]
                <= self.indices@[i + 1]
    }

    /// The number of lines held equals the length of the line sequence.
    pub proof fn lemma_line_count(&self)
        ensures
            self.line_count() == self.lines().len(),
    {
    }

    /// An empty page of capacity zero.
    pub fn new() -> (r: Self)
        ensures
            r.wf(),
            r.lines() =~= Seq::<Seq<u8>>::empty(),
            r.fill() == 0,
            r.capacity() == 0,
    {
        Self::with_capacity(0)
    }

    /// An empty page of the given byte capacity.
    pub fn with_capacity(cap: usize) -> (r: Self)
        ensures
            r.wf(),
            r.lines() =~= Seq::<Seq<u8>>::empty(),
            r.fill() == 0,
            r.capacity() == cap,
    {
        Self { buf: Vec::with_capacity(cap), indices: Vec::new(), cap }
    }

    /// Appends one line, returning its position in this page.
    pub fn add_line(&mut self, s: &[u8]) -> (idx: usize)
        requires
            old(self).wf(),
        ensures
            final(self).wf(),
            final(self).lines() == old(self).lines().push(s@),
            final(self).fill() == old(self).fill() + s@.len(),
            final(self).capacity() == old(self).capacity(),
            idx == old(self).line_count(),
    {
        let start = self.buf.len();
        self.indices.push(start);
        self.buf.extend_from_slice(s);
        proof {
            assert forall|i: int| 0 <= i < old(self).line_count() implies final(self).spec_line(i)
                == old(self).spec_line(i) by {
                assert(final(self).line_end(i) == old(self).line_end(i));
                assert(final(self).spec_line(i) =~= old(self).spec_line(i));
            }
            assert(final(self).spec_line(old(self).line_count() as int) =~= s@);
            assert(final(self).lines() =~= old(self).lines().push(s@));
        }
        self.len() - 1
    }

    /// Appends one line.
    pub fn add_str(&mut self, s: &[u8])
        requires
            old(self).wf(),
        ensures
            final(self).wf(),
            final(self).lines() == old(self).lines().push(s@),
            final(self).fill() == old(self).fill() + s@.len(),
            final(self).capacity() == old(self).capacity(),
    {
        self.add_line(s);
    }

    /// Appends one line only if it fits within the page's capacity;
    /// reports whether it did.
    pub fn add_str_only_if_in_cap(&mut self, s: &[u8]) -> (r: bool)
        requires
            old(self).wf(),
        ensures
            final(self).wf(),
            r == (old(self).fill() + s@.len() <= old(self).capacity()),
            r ==> final(self).lines() == old(self).lines().push(s@) && final(self).fill()
                == old(self).fill() + s@.len(),
            !r ==> *final(self) == *old(self),
            final(self).capacity() == old(self).capacity(),
    {
        match self.buf.len().checked_add(s.len()) {
            Some(t) => {
                if t > self.cap {
                    return false;
                }
                self.add_str(s);
                true
            },
            None => false,
        }
    }

    /// Number of lines held.
    pub fn len(&self) -> (r: usize)
        ensures
            r == self.line_count(),
    {
        self.indices.len()
    }

    /// The bytes of the line at `idx`, or nothing when out of range.
    pub fn get_at(&self, idx: usize) -> (r: Option<&[u8]>)
        requires
            self.wf(),
        ensures
            idx < self.line_count() ==> (r matches Some(l) && l@ == self.lines()[idx as int]),
            idx >= self.line_count() ==> r is None,
    {
        if idx >= self.indices.len() {
            return None;
        }
        let start = self.indices[idx];
        let end = if idx + 1 < self.indices.len() {
            self.indices[idx + 1]
        } else {
            self.buf.len()
        };
        Some(&self.buf.as_slice()[start..end])
    }

    /// The lines with positions in `[start, end)`, or nothing when the
    /// range reaches past the held lines.
    pub fn get_slice<'a>(&'a self, start: usize, end: usize) -> (r: Option<Vec<&'a [u8]>>)
        requires
            self.wf(),
        ensures
            start >= end ==> (r matches Some(v) && v@.len() == 0),
            start < end && end <= self.line_count() ==> (r matches Some(v) && v@.len() == end
                - start && forall|k: int|
                0 <= k < v@.len() ==> #[trigger] v@[k]@ == self.lines()[start + k]),
            start < end && end > self.line_count() ==> r is None,
    {
        let mut out: Vec<&[u8]> = Vec::new();
        if start >= end {
            return Some(out);
        }
        if end > self.indices.len() {
            return None;
        }
        let mut i: usize = start;
        while i < end
            invariant
                self.wf(),
                start <= i <= end,
                end <= self.line_count(),
                out@.len() == i - start,
                forall|k: int| 0 <= k < out@.len() ==> #[trigger] out@[k]@ == self.lines()[start + k],
            decreases end - i,
        {
            match self.get_at(i) {
                Some(l) => out.push(l),
                None => {
                    proof {
                        assert(false);
                    }
                },
            }
            i += 1;
        }
        Some(out)
    }

    /// Removes every line, keeping the capacity.
    pub fn clear(&mut self)
        ensures
            final(self).wf(),
            final(self).lines() =~= Seq::<Seq<u8>>::empty(),
            final(self).fill() == 0,
            final(self).capacity() == old(self).capacity(),
    {
        self.buf.clear();
        self.indices.clear();
    }
}

} // verus!

verus! {

/// The lines of a queue of pages, head first.
pub open spec fn pages_lines(ps: Seq<Page>) -> Seq<Seq<u8>>
    decreases ps.len(),
{
    if ps.len() == 0 {
        Seq::empty()
    } else {
        ps[0].lines() + pages_lines(ps.drop_first())
    }
}

proof fn lemma_pages_lines_empty()
    ensures
        pages_lines(Seq::<Page>::empty()) == Seq::<Seq<u8>>::empty(),
{
    assert(pages_lines(Seq::<Page>::empty()) =~= Seq::<Seq<u8>>::empty());
}

proof fn lemma_pages_lines_push(ps: Seq<Page>, p: Page)
    ensures
        pages_lines(ps.push(p)) == pages_lines(ps) + p.lines(),
    decreases ps.len(),
{
    if ps.len() == 0 {
        lemma_pages_lines_empty();
        assert(ps.push(p).drop_first() =~= Seq::<Page>::empty());
        assert(ps.push(p)[0] == p);
        assert(pages_lines(ps.push(p)) =~= pages_lines(ps) + p.lines());
    } else {
        assert(ps.push(p).drop_first() =~= ps.drop_first().push(p));
        lemma_pages_lines_push(ps.drop_first(), p);
        assert(ps.push(p)[0] == ps[0]);
        assert(pages_lines(ps.push(p)) =~= pages_lines(ps) + p.lines());
    }
}

proof fn lemma_pages_lines_update_last(ps: Seq<Page>, p: Page, x: Seq<u8>)
    requires
        ps.len() >= 1,
        p.lines() == ps.last().lines().push(x),
    ensures
        pages_lines(ps.update(ps.len() - 1, p)) == pages_lines(ps).push(x),
    decreases ps.len(),
{
    if ps.len() == 1 {
        lemma_pages_lines_empty();
        assert(ps.update(0, p)[0] == p);
        assert(ps.last() == ps[0]);
        assert(ps.update(0, p).drop_first() =~= Seq::<Page>::empty());
        assert(ps.drop_first() =~= Seq::<Page>::empty());
        assert(pages_lines(ps.update(0, p)) =~= pages_lines(ps).push(x));
    } else {
        let tail = ps.drop_first();
        assert(tail.last() == ps.last());
        lemma_pages_lines_update_last(tail, p, x);
        assert(ps.update(ps.len() - 1, p).drop_first() =~= tail.update(tail.len() - 1, p));
        assert(ps.update(ps.len() - 1, p)[0] == ps[0]);
        assert(pages_lines(ps.update(ps.len() - 1, p)) =~= pages_lines(ps).push(x));
    }
}

proof fn lemma_pages_lines_drop_head(ps: Seq<Page>, h: Seq<Seq<u8>>, off: int)
    requires
        ps.len() >= 1,
        0 <= off <= h.len(),
        pages_lines(ps) == h.skip(off),
    ensures
        pages_lines(ps.drop_first()) == h.skip(off + ps[0].line_count()),
        off + ps[0].line_count() <= h.len(),
        forall|j: int| 0 <= j < ps[0].line_count() ==> ps[0].lines()[j] == h[off + j],
{
    let k = ps[0].line_count() as int;
    let rest = pages_lines(ps.drop_first());
    assert(pages_lines(ps) == ps[0].lines() + rest);
    assert(h.skip(off).len() == ps[0].lines().len() + rest.len());
    assert(rest.len() == h.len() - off - k);
    assert forall|j: int| 0 <= j < rest.len() implies rest[j] == h.skip(off + k)[j] by {
        assert(rest[j] == (ps[0].lines() + rest)[k + j]);
        assert(h.skip(off)[k + j] == h[off + k + j]);
        assert(h.skip(off + k)[j] == h[off + k + j]);
    }
    assert(rest =~= h.skip(off + k));
    assert forall|j: int| 0 <= j < k implies ps[0].lines()[j] == h[off + j] by {
        assert(ps[0].lines()[j] == (ps[0].lines() + rest)[j]);
        assert(h.skip(off)[j] == h[off + j]);
    }
}

/// The bounded, monotonically indexed store of lines.
///
/// Every line ever appended has a global index; the store keeps the lines
/// of at most `page_count` pages and recycles the head page when a new
/// line needs room.  The ghost `hist` records every appended line; the
/// resident lines are exactly its suffix from `first_index` on.
pub struct Pages {
    pages: Vec<Page>,
    page_capacity: usize,
    page_count: usize,
    global_offset: usize,
    total: usize,
    hist: Ghost<Seq<Seq<u8>>>,
}

impl Pages {
    /// Every line appended so far, in append order.
    pub closed spec fn history(&self) -> Seq<Seq<u8>> {
        self.hist@
    }

    /// Global index of the first line still resident.
    pub closed spec fn spec_first_index(&self) -> nat {
        self.global_offset as nat
    }

    /// One past the global index of the last line appended.
    pub open spec fn spec_lines_count(&self) -> nat {
        self.history().len()
    }

    /// The configured byte capacity of one page.
    pub closed spec fn spec_page_capacity(&self) -> nat {
        self.page_capacity as nat
    }

    /// The configured maximum number of pages.
    pub closed spec fn spec_page_count(&self) -> nat {
        self.page_count as nat
    }

    /// Number of pages currently open.
    pub closed spec fn page_slots(&self) -> nat {
        self.pages@.len()
    }

    /// Bytes used in the tail page.
    pub closed spec fn tail_fill(&self) -> nat {
        self.pages@.last().fill()
    }

    /// Number of lines held by the head page.
    pub closed spec fn head_line_count(&self) -> nat {
        self.pages@[0].line_count()
    }

    /// Number of lines held by page `k` of the queue.
    pub closed spec fn page_line_count(&self, k: int) -> nat {
        self.pages@[k].line_count()
    }

    /// Global index `i` is resident.
    pub open spec fn resident(&self, i: int) -> bool {
        self.spec_first_index() <= i < self.spec_lines_count()
    }

    /// The pages hold exactly the suffix of the history that starts at
    /// `first_index`, within the configured bounds.
    pub closed spec fn wf(&self) -> bool {
        &&& 1 <= self.pages@.len() <= self.page_count
        &&& self.page_count >= 1
        &&& forall|p: int|
            0 <= p < self.pages@.len() ==> (#[trigger] self.pages@[p]).wf()
                && self.pages@[p].capacity() == self.page_capacity
        &&& pages_lines(self.pages@) == self.history().skip(self.global_offset as int)
        &&& self.global_offset <= self.total
        &&& self.total == self.history().len()
    }

    /// An empty store of `page_count` pages of `page_capacity` bytes each.
    pub fn new(page_capacity: usize, page_count: usize) -> (r: Self)
        requires
            page_count >= 1,
        ensures
            r.wf(),
            r.history() =~= Seq::<Seq<u8>>::empty(),
            r.spec_first_index() == 0,
            r.spec_page_capacity() == page_capacity,
            r.spec_page_count() == page_count,
            r.page_slots() == 1,
            r.tail_fill() == 0,
            r.head_line_count() == 0,
    {
        let mut pages = Vec::new();
        pages.push(Page::with_capacity(page_capacity));
        let r = Self {
            pages,
            page_capacity,
            page_count,
            global_offset: 0,
            total: 0,
            hist: Ghost(Seq::empty()),
        };
        proof {
            lemma_pages_lines_empty();
            assert(r.pages@.drop_first() =~= Seq::<Page>::empty());
            assert(pages_lines(r.pages@) =~= r.history().skip(0));
        }
        r
    }

    /// Appends one line and returns its global index.
    ///
    /// The line count grows by one on every append.  When the line fits
    /// the tail page, or a fresh page can still be opened, no line leaves
    /// the store; otherwise the head page is evicted and `first_index`
    /// advances by exactly the number of lines that page held.
    #[verifier::rlimit(100)]
    pub fn add_line(&mut self, s: &[u8]) -> (idx: usize)
        requires
            old(self).wf(),
            old(self).spec_lines_count() < usize::MAX,
        ensures
            final(self).wf(),
            final(self).history() == old(self).history().push(s@),
            final(self).spec_lines_count() == old(self).spec_lines_count() + 1,
            idx == old(self).spec_lines_count(),
            final(self).spec_page_capacity() == old(self).spec_page_capacity(),
            final(self).spec_page_count() == old(self).spec_page_count(),
            old(self).tail_fill() + s@.len() <= old(self).spec_page_capacity() || old(
                self,
            ).page_slots() < old(self).spec_page_count() ==> final(self).spec_first_index() == old(
                self,
            ).spec_first_index(),
            !(old(self).tail_fill() + s@.len() <= old(self).spec_page_capacity()) && old(
                self,
            ).page_slots() == old(self).spec_page_count() ==> final(self).spec_first_index() == old(
                self,
            ).spec_first_index() + old(self).head_line_count(),
            old(self).spec_first_index() <= final(self).spec_first_index()
                < final(self).spec_lines_count(),
            old(self).tail_fill() + s@.len() <= old(self).spec_page_capacity() ==> {
                &&& final(self).page_slots() == old(self).page_slots()
                &&& final(self).tail_fill() == old(self).tail_fill() + s@.len()
                &&& final(self).head_line_count() == old(self).head_line_count() + (if old(
                    self,
                ).page_slots() == 1 {
                    1nat
                } else {
                    0nat
                })
            },
            !(old(self).tail_fill() + s@.len() <= old(self).spec_page_capacity()) && old(
                self,
            ).page_slots() < old(self).spec_page_count() ==> {
                &&& final(self).page_slots() == old(self).page_slots() + 1
                &&& final(self).tail_fill() == s@.len()
                &&& final(self).head_line_count() == old(self).head_line_count()
            },
            !(old(self).tail_fill() + s@.len() <= old(self).spec_page_capacity()) && old(
                self,
            ).page_slots() == old(self).spec_page_count() ==> {
                &&& final(self).page_slots() == old(self).page_slots()
                &&& final(self).tail_fill() == s@.len()
                &&& final(self).head_line_count() == (if old(self).spec_page_count() == 1 {
                    1nat
                } else {
                    old(self).page_line_count(1)
                })
            },
    {
        let ghost old_hist = self.hist@;
        let last = self.pages.len() - 1;
        let fitted = self.pages[last].add_str_only_if_in_cap(s);
        if fitted {
            proof {
                let p_new = self.pages@[last as int];
                lemma_pages_lines_update_last(old(self).pages@, p_new, s@);
                assert(self.pages@ =~= old(self).pages@.update(last as int, p_new));
                assert(pages_lines(self.pages@) == pages_lines(old(self).pages@).push(s@));
            }
            self.total += 1;
            proof {
                self.hist@ = old_hist.push(s@);
                let off2 = self.global_offset as int;
                assert(old_hist.skip(off2).push(s@) =~= old_hist.push(s@).skip(off2));
            }
            return self.total - 1;
        }
        if self.pages.len() == self.page_count {
            let mut page = self.pages.remove(0);
            let k = page.len();
            page.clear();
            page.add_str(s);
            proof {
                assert(old(self).pages@.remove(0) =~= old(self).pages@.drop_first());
                assert(pages_lines(old(self).pages@).len() >= old(self).pages@[0].lines().len());
                lemma_pages_lines_drop_head(
                    old(self).pages@,
                    old_hist,
                    old(self).global_offset as int,
                );
                lemma_pages_lines_push(old(self).pages@.drop_first(), page);
            }
            self.pages.push(page);
            self.global_offset += k;
            self.total += 1;
            proof {
                self.hist@ = old_hist.push(s@);
                let off2 = self.global_offset as int;
                assert(self.pages@ =~= old(self).pages@.drop_first().push(page));
                assert(page.lines() =~= Seq::<Seq<u8>>::empty().push(s@));
                assert(pages_lines(self.pages@) == pages_lines(old(self).pages@.drop_first())
                    + page.lines());
                assert(old_hist.skip(off2) + page.lines() =~= old_hist.skip(off2).push(s@));
                assert(old_hist.push(s@).skip(off2) =~= old_hist.skip(off2).push(s@));
            }
            self.total - 1
        } else {
            let mut page = Page::with_capacity(self.page_capacity);
            page.add_str(s);
            proof {
                lemma_pages_lines_push(old(self).pages@, page);
            }
            self.pages.push(page);
            self.total += 1;
            proof {
                self.hist@ = old_hist.push(s@);
                let off2 = self.global_offset as int;
                assert(self.pages@ =~= old(self).pages@.push(page));
                assert(page.lines() =~= Seq::<Seq<u8>>::empty().push(s@));
                assert(pages_lines(self.pages@) == pages_lines(old(self).pages@) + page.lines());
                assert(old_hist.skip(off2) + page.lines() =~= old_hist.skip(off2).push(s@));
                assert(old_hist.push(s@).skip(off2) =~= old_hist.skip(off2).push(s@));
            }
            self.total - 1
        }
    }

    /// Total number of lines ever appended; also one past the global
    /// index of the most recent line.
    pub fn lines_count(&self) -> (r: usize)
        requires
            self.wf(),
        ensures
            r == self.spec_lines_count(),
            self.spec_first_index() <= r,
    {
        self.total
    }

    /// Global index of the first resident line.
    pub fn first_index(&self) -> (r: usize)
        requires
            self.wf(),
        ensures
            r == self.spec_first_index(),
            r <= self.spec_lines_count(),
    {
        self.global_offset
    }

    /// The first resident index never passes the line count: the count
    /// is the first index plus the number of resident lines.
    pub proof fn lemma_first_index_bound(&self)
        requires
            self.wf(),
        ensures
            self.spec_first_index() <= self.spec_lines_count(),
    {
    }

    /// The exact bytes appended at global index `idx`, or nothing when
    /// `idx` is not resident.
    #[verifier::rlimit(100)]
    pub fn get_line(&self, idx: usize) -> (r: Option<&[u8]>)
        requires
            self.wf(),
        ensures
            self.resident(idx as int) ==> (r matches Some(l) && l@ == self.history()[idx as int]),
            !self.resident(idx as int) ==> r is None,
    {
        if idx < self.global_offset || idx >= self.total {
            return None;
        }
        let n = self.pages.len();
        let mut p: usize = 0;
        let mut rdx: usize = self.global_offset;
        proof {
            assert(self.pages@.skip(0) =~= self.pages@);
        }
        while p < n
            invariant
                n == self.pages@.len(),
                p <= n,
                self.global_offset <= idx,
                rdx <= idx,
                idx < self.total,
                self.total == self.history().len(),
                forall|q: int| 0 <= q < n ==> (#[trigger] self.pages@[q]).wf(),
                pages_lines(self.pages@.skip(p as int)) == self.history().skip(rdx as int),
            decreases n - p,
        {
            let cnt = self.pages[p].len();
            proof {
                assert(self.pages@.skip(p as int)[0] == self.pages@[p as int]);
                assert(self.pages@.skip(p as int).drop_first() =~= self.pages@.skip(p as int + 1));
                lemma_pages_lines_drop_head(
                    self.pages@.skip(p as int),
                    self.history(),
                    rdx as int,
                );
            }
            if idx - rdx < cnt {
                let r = self.pages[p].get_at(idx - rdx);
                proof {
                    assert(self.pages@[p as int].lines()[idx - rdx] == self.history()[idx as int]);
                }
                return r;
            }
            rdx = rdx + cnt;
            p += 1;
        }
        proof {
            assert(self.pages@.skip(n as int) =~= Seq::<Page>::empty());
            lemma_pages_lines_empty();
            assert(self.history().skip(rdx as int).len() == 0);
        }
        vstd::pervasive::unreached()
    }
}

} // verus!

verus! {

impl Pages {
    /// Line `i` is resident and the query finds a match in it.
    pub open spec fn matches_at(&self, c: Command, i: int) -> bool {
        self.resident(i) && command_match(c, self.history()[i]) is Some
    }

    /// Line `i` is resident and passes the query used as a gate.
    pub open spec fn passes_at(&self, c: Command, i: int) -> bool {
        self.resident(i) && accepts(c, self.history()[i])
    }

    /// The nearest matching resident line strictly after `i`.
    pub open spec fn next_match_after(&self, c: Command, i: int) -> Option<int>
        decreases self.spec_lines_count() - i,
    {
        if i + 1 >= self.spec_lines_count() {
            None
        } else if self.matches_at(c, i + 1) {
            Some(i + 1)
        } else {
            self.next_match_after(c, i + 1)
        }
    }

    /// The nearest matching resident line strictly before `i`.
    pub open spec fn prev_match_before(&self, c: Command, i: int) -> Option<int>
        decreases i,
    {
        if i <= self.spec_first_index() {
            None
        } else if self.matches_at(c, i - 1) {
            Some(i - 1)
        } else {
            self.prev_match_before(c, i - 1)
        }
    }

    /// A span without matches does not change the nearest next match.
    proof fn lemma_next_match_skip(&self, c: Command, a: int, b: int)
        requires
            a <= b,
            forall|m: int| a < m <= b ==> !self.matches_at(c, m),
        ensures
            self.next_match_after(c, a) == self.next_match_after(c, b),
        decreases b - a,
    {
        if a < b {
            self.lemma_next_match_skip(c, a + 1, b);
        }
    }

    /// A span without matches does not change the nearest previous match.
    proof fn lemma_prev_match_skip(&self, c: Command, a: int, b: int)
        requires
            a <= b,
            forall|m: int| a <= m < b ==> !self.matches_at(c, m),
        ensures
            self.prev_match_before(c, a) == self.prev_match_before(c, b),
        decreases b - a,
    {
        if a < b {
            self.lemma_prev_match_skip(c, a, b - 1);
        }
    }

    /// Global indices of every resident line the query matches, in
    /// ascending order.
    pub fn find_all_matches(&self, c: &Command) -> (r: Vec<usize>)
        requires
            self.wf(),
        ensures
            forall|k1: int, k2: int| 0 <= k1 < k2 < r@.len() ==> r@[k1] < r@[k2],
            forall|i: usize| #[trigger] r@.contains(i) <==> self.matches_at(*c, i as int),
    {
        let mut out: Vec<usize> = Vec::new();
        let total = self.lines_count();
        let mut i: usize = self.first_index();
        while i < total
            invariant
                self.wf(),
                total == self.spec_lines_count(),
                self.spec_first_index() <= i,
                i <= total,
                forall|k1: int, k2: int| 0 <= k1 < k2 < out@.len() ==> out@[k1] < out@[k2],
                forall|k: int| 0 <= k < out@.len() ==> out@[k] < i,
                forall|j: usize| #[trigger] out@.contains(j) <==> (self.matches_at(*c, j as int)
                    && j < i),
            decreases total - i,
        {
            match self.get_line(i) {
                Some(l) => {
                    if c.is_match(l).is_some() {
                        let ghost old_out = out@;
                        out.push(i);
                        proof {
                            assert forall|j: usize| #[trigger] out@.contains(j) implies (
                            self.matches_at(*c, j as int) && j < i + 1) by {
                                if out@.contains(j) {
                                    let k = choose|k: int|
                                        0 <= k < out@.len() && out@[k] == j;
                                    if k < old_out.len() {
                                        assert(old_out.contains(j));
                                    }
                                }
                            }
                            assert forall|j: usize|
                                self.matches_at(*c, j as int) && j < i + 1 implies #[trigger] out@
                                .contains(j) by {
                                if j < i {
                                    assert(old_out.contains(j));
                                    let k = choose|k: int|
                                        0 <= k < old_out.len() && old_out[k] == j;
                                    assert(out@[k] == j);
                                } else {
                                    assert(out@[out@.len() - 1] == j);
                                }
                            }
                        }
                    } else {
                        proof {
                            assert forall|j: usize|
                                self.matches_at(*c, j as int) && j < i + 1 implies #[trigger] out@
                                .contains(j) by {
                                if j < i {
                                } else {
                                    assert(self.history()[i as int] == l@);
                                }
                            }
                        }
                    }
                },
                None => {
                    proof {
                        assert(false);
                    }
                },
            }
            i += 1;
        }
        out
    }

    /// The nearest match strictly after `idx`: its global index and the
    /// matched byte range.
    pub fn find_next(&self, c: &Command, idx: usize) -> (r: Option<(usize, (usize, usize))>)
        requires
            self.wf(),
        ensures
            match self.next_match_after(*c, idx as int) {
                Some(j) => r matches Some((ju, rng)) && ju == j && command_match(
                    *c,
                    self.history()[j],
                ) == Some(rng),
                None => r is None,
            },
            r matches Some((j, rng)) ==> {
                &&& idx < j
                &&& self.matches_at(*c, j as int)
                &&& forall|m: int| idx < m < j ==> !self.matches_at(*c, m)
            },
    {
        let total = self.lines_count();
        let first = self.first_index();
        if idx >= total {
            return None;
        }
        let mut j: usize = if idx + 1 > first {
            idx + 1
        } else {
            first
        };
        proof {
            self.lemma_next_match_skip(*c, idx as int, j - 1);
        }
        while j < total
            invariant
                self.wf(),
                total == self.spec_lines_count(),
                self.spec_first_index() <= j,
                idx < j,
                forall|m: int| idx < m < j ==> !self.matches_at(*c, m),
                self.next_match_after(*c, idx as int) == self.next_match_after(*c, j - 1),
            decreases total - j,
        {
            match self.get_line(j) {
                Some(l) => {
                    let m = c.is_match(l);
                    if let Some(rng) = m {
                        proof {
                            assert(self.next_match_after(*c, j - 1) == Some(j as int));
                        }
                        return Some((j, rng));
                    }
                },
                None => {
                    proof {
                        assert(false);
                    }
                },
            }
            j += 1;
        }
        proof {
            assert(self.next_match_after(*c, j - 1) is None);
        }
        None
    }

    /// The nearest match strictly before `idx`: its global index and the
    /// matched byte range.
    pub fn find_prev(&self, c: &Command, idx: usize) -> (r: Option<(usize, (usize, usize))>)
        requires
            self.wf(),
        ensures
            match self.prev_match_before(*c, idx as int) {
                Some(j) => r matches Some((ju, rng)) && ju == j && command_match(
                    *c,
                    self.history()[j],
                ) == Some(rng),
                None => r is None,
            },
            r matches Some((j, rng)) ==> {
                &&& j < idx
                &&& self.matches_at(*c, j as int)
                &&& forall|m: int| j < m < idx ==> !self.matches_at(*c, m)
            },
    {
        let total = self.lines_count();
        let first = self.first_index();
        let mut j: usize = if idx > total {
            total
        } else {
            idx
        };
        proof {
            self.lemma_prev_match_skip(*c, j as int, idx as int);
        }
        while j > first
            invariant
                self.wf(),
                total == self.spec_lines_count(),
                self.spec_first_index() == first,
                j <= idx,
                j <= total,
                forall|m: int| j <= m < idx ==> !self.matches_at(*c, m),
                self.prev_match_before(*c, idx as int) == self.prev_match_before(*c, j as int),
            decreases j,
        {
            j -= 1;
            match self.get_line(j) {
                Some(l) => {
                    let m = c.is_match(l);
                    if let Some(rng) = m {
                        proof {
                            assert(self.prev_match_before(*c, j + 1) == Some(j as int));
                        }
                        return Some((j, rng));
                    }
                },
                None => {
                    proof {
                        assert(false);
                    }
                },
            }
        }
        proof {
            assert(self.prev_match_before(*c, j as int) is None);
        }
        None
    }
}

} // verus!

verus! {

/// Forward and backward walker over the resident lines of a store.
pub struct PagesLineIterator<'a> {
    pages: &'a Pages,
    inner_cursor: usize,
    back_taken: usize,
}

impl Pages {
    /// A walker over the resident lines, starting at the first resident
    /// line from the front and at the newest line from the back.
    pub fn get_lines_iter<'a>(&'a self) -> (r: PagesLineIterator<'a>)
        requires
            self.wf(),
        ensures
            r.pages_ref() == self,
            r.cursor() == self.spec_first_index(),
            r.taken_back() == 0,
    {
        PagesLineIterator { pages: self, inner_cursor: self.first_index(), back_taken: 0 }
    }
}

impl<'a> PagesLineIterator<'a> {
    /// The store walked over.
    pub closed spec fn pages_ref(&self) -> &'a Pages {
        self.pages
    }

    /// Position of the forward walk: global index of the next line.
    pub closed spec fn cursor(&self) -> nat {
        self.inner_cursor as nat
    }

    /// Number of lines the backward walk has yielded.
    pub closed spec fn taken_back(&self) -> nat {
        self.back_taken as nat
    }

    /// The next resident line, advancing the forward walk.
    pub fn next(&mut self) -> (r: Option<&'a [u8]>)
        requires
            old(self).pages_ref().wf(),
        ensures
            final(self).pages_ref() == old(self).pages_ref(),
            final(self).taken_back() == old(self).taken_back(),
            old(self).pages_ref().resident(old(self).cursor() as int) ==> {
                &&& r matches Some(l) && l@ == old(self).pages_ref().history()[old(
                    self,
                ).cursor() as int]
                &&& final(self).cursor() == old(self).cursor() + 1
            },
            !old(self).pages_ref().resident(old(self).cursor() as int) ==> r is None
                && final(self).cursor() == old(self).cursor(),
    {
        let r = self.pages.get_line(self.inner_cursor);
        if r.is_some() {
            self.inner_cursor += 1;
        }
        r
    }

    /// The next resident line from the back: the k-th backward yield is
    /// the line at global index `lines_count - 1 - k`, until the walk
    /// falls below `first_index`.
    pub fn next_back(&mut self) -> (r: Option<&'a [u8]>)
        requires
            old(self).pages_ref().wf(),
        ensures
            final(self).pages_ref() == old(self).pages_ref(),
            final(self).cursor() == old(self).cursor(),
            ({
                let t = old(self).pages_ref().spec_lines_count();
                let k = old(self).taken_back();
                if k < t && t - k - 1 >= old(self).pages_ref().spec_first_index() {
                    &&& r matches Some(l) && l@ == old(self).pages_ref().history()[t - k - 1]
                    &&& final(self).taken_back() == k + 1
                } else {
                    r is None && final(self).taken_back() == k
                }
            }),
    {
        let total = self.pages.lines_count();
        if self.back_taken >= total {
            return None;
        }
        let r = self.pages.get_line(total - self.back_taken - 1);
        if r.is_some() {
            self.back_taken += 1;
        }
        r
    }
}

/// Forward and backward walker over the lines of one page.
pub struct PageLineIterator<'a> {
    page: &'a Page,
    idx: usize,
}

impl<'a> PageLineIterator<'a> {
    /// The page walked over.
    pub closed spec fn page_ref(&self) -> &'a Page {
        self.page
    }

    /// Number of lines already yielded.
    pub closed spec fn taken(&self) -> nat {
        self.idx as nat
    }

    /// A walker over the lines of `page`, from the first.
    pub fn new(page: &'a Page) -> (r: Self)
        ensures
            r.page_ref() == page,
            r.taken() == 0,
    {
        Self { page, idx: 0 }
    }

    /// Position of the line yielded most recently.
    pub fn current_idx(&self) -> (r: usize)
        ensures
            r == if self.taken() == 0 {
                0
            } else {
                (self.taken() - 1) as nat
            },
    {
        if self.idx == 0 {
            0
        } else {
            self.idx - 1
        }
    }

    /// Number of lines in the page.
    pub fn len(&self) -> (r: usize)
        requires
            self.page_ref().wf(),
        ensures
            r == self.page_ref().line_count(),
    {
        self.page.len()
    }

    /// The next line from the front, advancing the walk.
    pub fn next(&mut self) -> (r: Option<&'a [u8]>)
        requires
            old(self).page_ref().wf(),
        ensures
            final(self).page_ref() == old(self).page_ref(),
            old(self).taken() < old(self).page_ref().line_count() ==> {
                &&& r matches Some(l) && l@ == old(self).page_ref().lines()[old(
                    self,
                ).taken() as int]
                &&& final(self).taken() == old(self).taken() + 1
            },
            old(self).taken() >= old(self).page_ref().line_count() ==> r is None && *final(self)
                == *old(self),
    {
        if self.idx >= self.page.len() {
            return None;
        }
        let r = self.page.get_at(self.idx);
        self.idx += 1;
        r
    }

    /// The next line from the back, advancing the walk.
    pub fn next_back(&mut self) -> (r: Option<&'a [u8]>)
        requires
            old(self).page_ref().wf(),
        ensures
            final(self).page_ref() == old(self).page_ref(),
            old(self).taken() < old(self).page_ref().line_count() ==> {
                &&& r matches Some(l) && l@ == old(self).page_ref().lines()[
                    old(self).page_ref().line_count() - old(self).taken() - 1
                ]
                &&& final(self).taken() == old(self).taken() + 1
            },
            old(self).taken() >= old(self).page_ref().line_count() ==> r is None && *final(self)
                == *old(self),
    {
        if self.idx >= self.page.len() {
            return None;
        }
        let r = self.page.get_at(self.page.len() - self.idx - 1);
        self.idx += 1;
        r
    }
}

/// A matching line of a page, borrowed, with the byte position of the
/// match.
#[derive(Clone, Copy)]
pub struct SearchResultLine<'a> {
    /// The line's bytes.
    pub line: &'a [u8],
    /// Position of the line within its page.
    pub line_index: usize,
    /// Byte position of the first occurrence of the needle.
    pub substr_start: usize,
}

/// A matching line of a page: its position and the byte position of the
/// match.
#[derive(Clone, Copy)]
pub struct PageSearchedLine {
    index: usize,
    substr_start: usize,
}

impl PageSearchedLine {
    /// Position of the line within its page.
    pub closed spec fn spec_index(&self) -> nat {
        self.index as nat
    }

    /// Byte position of the match within the line.
    pub closed spec fn spec_substr_start(&self) -> nat {
        self.substr_start as nat
    }

    /// A found line at `index` whose match starts at `substr_start`.
    pub fn new(index: usize, substr_start: usize) -> (r: Self)
        ensures
            r.spec_index() == index,
            r.spec_substr_start() == substr_start,
    {
        Self { index, substr_start }
    }

    /// The bytes of the found line within `page`.
    pub fn as_str<'a>(&self, page: &'a Page) -> (r: &'a [u8])
        requires
            page.wf(),
            self.spec_index() < page.line_count(),
        ensures
            r@ == page.lines()[self.spec_index() as int],
    {
        match page.get_at(self.index) {
            Some(l) => l,
            None => vstd::pervasive::unreached(),
        }
    }

    /// Position of the line within its page.
    pub fn index(&self) -> (r: usize)
        ensures
            r == self.spec_index(),
    {
        self.index
    }

    /// Byte position of the match within the line.
    pub fn substr_start(&self) -> (r: usize)
        ensures
            r == self.spec_substr_start(),
    {
        self.substr_start
    }
}

/// Walker over the lines of one page that yields only the lines in which
/// a needle occurs, with the position of its first occurrence.
pub struct PageSearchIterator<'a> {
    page_iter: PageLineIterator<'a>,
    search_str: &'a [u8],
}

impl<'a> PageSearchIterator<'a> {
    /// The page searched.
    pub closed spec fn page_ref(&self) -> &'a Page {
        self.page_iter.page_ref()
    }

    /// The needle searched for.
    pub closed spec fn needle(&self) -> Seq<u8> {
        self.search_str@
    }

    /// Number of lines already examined from the front.
    pub closed spec fn taken(&self) -> nat {
        self.page_iter.taken()
    }

    /// Line `i` of the page contains the needle.
    pub open spec fn hit(&self, i: int) -> bool {
        first_match(self.page_ref().lines()[i], self.needle()) is Some
    }

    /// A walker over the lines of `page` yielding those that contain
    /// `search_str`.
    pub fn new(page: &'a Page, search_str: &'a [u8]) -> (r: Self)
        ensures
            r.page_ref() == page,
            r.needle() == search_str@,
            r.taken() == 0,
    {
        Self { page_iter: PageLineIterator::new(page), search_str }
    }

    /// Line `i`, counted from the back, contains the needle.
    pub open spec fn hit_from_back(&self, i: int) -> bool {
        self.hit(self.page_ref().line_count() - 1 - i)
    }

    /// The next line from the back that contains the needle.
    #[verifier::rlimit(100)]
    pub fn next_back(&mut self) -> (r: Option<PageSearchedLine>)
        requires
            old(self).page_ref().wf(),
        ensures
            final(self).page_ref() == old(self).page_ref(),
            final(self).needle() == old(self).needle(),
            r matches Some(f) ==> {
                &&& f.spec_index() < old(self).page_ref().line_count()
                &&& old(self).taken() <= old(self).page_ref().line_count() - 1 - f.spec_index()
                &&& final(self).taken() == old(self).page_ref().line_count() - f.spec_index()
                &&& first_match(
                    old(self).page_ref().lines()[f.spec_index() as int],
                    old(self).needle(),
                ) == Some(f.spec_substr_start() as int)
                &&& forall|i: int|
                    old(self).taken() <= i < old(self).page_ref().line_count() - 1
                        - f.spec_index() ==> !old(self).hit_from_back(i)
            },
            r is None ==> forall|i: int|
                old(self).taken() <= i < old(self).page_ref().line_count() ==> !old(
                self,
            ).hit_from_back(i),
    {
        loop
            invariant
                self.page_ref().wf(),
                self.page_ref() == old(self).page_ref(),
                self.needle() == old(self).needle(),
                old(self).taken() <= self.taken(),
                self.taken() <= self.page_ref().line_count() || self.taken() == old(self).taken(),
                forall|i: int|
                    old(self).taken() <= i < self.taken() ==> !old(self).hit_from_back(i),
            decreases self.page_ref().line_count() + 1 - self.taken(),
        {
            let n = self.page_iter.len();
            let ghost taken_before = self.taken();
            match self.page_iter.next_back() {
                Some(item) => {
                    if let Some(substr_start) = find_first(item, self.search_str) {
                        let cur = self.page_iter.current_idx();
                        let line_index = n - cur - 1;
                        return Some(PageSearchedLine::new(line_index, substr_start));
                    }
                },
                None => {
                    return None;
                },
            }
        }
    }

    /// The next line from the front that contains the needle.
    #[verifier::rlimit(100)]
    pub fn next(&mut self) -> (r: Option<PageSearchedLine>)
        requires
            old(self).page_ref().wf(),
        ensures
            final(self).page_ref() == old(self).page_ref(),
            final(self).needle() == old(self).needle(),
            r matches Some(f) ==> {
                &&& old(self).taken() <= f.spec_index() < old(self).page_ref().line_count()
                &&& final(self).taken() == f.spec_index() + 1
                &&& first_match(
                    old(self).page_ref().lines()[f.spec_index() as int],
                    old(self).needle(),
                ) == Some(f.spec_substr_start() as int)
                &&& forall|i: int|
                    old(self).taken() <= i < f.spec_index() ==> !old(self).hit(i)
            },
            r is None ==> forall|i: int|
                old(self).taken() <= i < old(self).page_ref().line_count() ==> !old(self).hit(i),
    {
        loop
            invariant
                self.page_ref().wf(),
                self.page_ref() == old(self).page_ref(),
                self.needle() == old(self).needle(),
                old(self).taken() <= self.taken(),
                self.taken() <= self.page_ref().line_count() || self.taken() == old(self).taken(),
                forall|i: int| old(self).taken() <= i < self.taken() ==> !old(self).hit(i),
            decreases self.page_ref().line_count() + 1 - self.taken(),
        {
            let ghost taken_before = self.taken();
            match self.page_iter.next() {
                Some(item) => {
                    if let Some(substr_start) = find_first(item, self.search_str) {
                        let line_index = self.page_iter.current_idx();
                        return Some(PageSearchedLine::new(line_index, substr_start));
                    }
                },
                None => {
                    return None;
                },
            }
        }
    }
}

} // verus!
