//! An early, simpler store of lines: pages of whole strings, each page
//! remembering the global number of its first line, with lookup by
//! binary search over those numbers.

use vstd::prelude::*;

use crate::command::first_match;
use crate::command::find_first;
use crate::command::str_bytes;
use vstd::string::StrSliceExecFns;

verus! {

/// A run of consecutive lines and the global number of the first.
pub struct Page {
    line_start_number: usize,
    lines: Vec<String>,
}

impl Page {
    /// The global number of this page's first line.
    pub closed spec fn spec_start(&self) -> nat {
        self.line_start_number as nat
    }

    /// The lines held.
    pub closed spec fn spec_lines(&self) -> Seq<Seq<char>> {
        Seq::new(self.lines@.len(), |i: int| self.lines@[i]@)
    }

    /// A page whose first line has global number `line_start_number`.
    pub fn new(line_start_number: usize, lines: Vec<String>) -> (r: Self)
        ensures
            r.spec_start() == line_start_number,
            r.spec_lines() == Seq::new(lines@.len(), |i: int| lines@[i]@),
    {
        Self { line_start_number, lines }
    }
}

/// Lines stored in pages of at most `max_lines_per_page` lines each.
pub struct Pages {
    pages: Vec<Page>,
    max_lines_per_page: usize,
    max_number_of_pages: usize,
    hist: Ghost<Seq<Seq<char>>>,
}

impl Pages {
    /// Every line stored, in append order.
    pub closed spec fn history(&self) -> Seq<Seq<char>> {
        self.hist@
    }

    /// Number of lines stored.
    pub open spec fn total(&self) -> nat {
        self.history().len()
    }

    /// Page starts are the running line count, pages are never empty,
    /// and each page's lines sit at their global numbers in the history.
    pub closed spec fn wf(&self) -> bool {
        &&& forall|p: int|
            0 <= p < self.pages@.len() ==> (#[trigger] self.pages@[p]).lines@.len() >= 1
        &&& forall|p: int|
            0 <= p < self.pages@.len() ==> (#[trigger] self.pages@[p]).lines@.len()
                <= self.max_lines_per_page
        &&& forall|p: int, j: int|
            0 <= p < self.pages@.len() && 0 <= j < self.pages@[p].lines@.len()
                ==> self.pages@[p].line_start_number + j < self.history().len() && (
            #[trigger] self.pages@[p].lines@[j])@ == self.history()[self.pages@[p].line_start_number
                + j]
        &&& forall|p: int|
            0 <= p < self.pages@.len() ==> (#[trigger] self.pages@[p]).line_start_number as int
                == self.start_sum(p)
        &&& self.start_sum(self.pages@.len() as int) == self.history().len()
        &&& self.history().len() <= usize::MAX
        &&& self.max_lines_per_page >= 1
    }

    /// Number of lines held by the pages before page `p`.
    pub closed spec fn start_sum(&self, p: int) -> int
        decreases p,
    {
        if p <= 0 {
            0
        } else {
            self.start_sum(p - 1) + self.pages@[p - 1].lines@.len()
        }
    }

    /// An empty store; pages are capped at `max_lines_per_page` lines.
    pub fn new(max_lines_per_page: usize, max_number_of_pages: usize) -> (r: Self)
        requires
            max_lines_per_page >= 1,
        ensures
            r.wf(),
            r.history() =~= Seq::<Seq<char>>::empty(),
    {
        Self {
            pages: Vec::new(),
            max_lines_per_page,
            max_number_of_pages,
            hist: Ghost(Seq::empty()),
        }
    }

    /// Appends one line, opening a new page when the tail page is full.
    #[verifier::rlimit(100)]
    pub fn add_line(&mut self, line: String)
        requires
            old(self).wf(),
            old(self).total() < usize::MAX,
        ensures
            final(self).wf(),
            final(self).history() == old(self).history().push(line@),
    {
        let ghost old_hist = self.hist@;
        let n = self.pages.len();
        if n == 0 {
            let mut fresh: Vec<String> = Vec::new();
            fresh.push(line);
            let page = Page { line_start_number: 0, lines: fresh };
            self.pages.push(page);
            proof {
                self.hist@ = old_hist.push(line@);
                assert(old_hist.len() == 0);
                assert(self.start_sum(0) == 0);
                assert(self.start_sum(1) == 1);
            }
            return ;
        }
        let last_len = self.pages[n - 1].lines.len();
        let last_start = self.pages[n - 1].line_start_number;
        proof {
            assert(self.start_sum(n as int) == last_start + last_len);
        }
        if last_len < self.max_lines_per_page {
            let lp = &mut self.pages[n - 1];
            lp.lines.push(line);
            proof {
                self.hist@ = old_hist.push(line@);
                assert forall|p: int| 0 <= p < self.pages@.len() implies (
                #[trigger] self.pages@[p]).line_start_number as int == self.start_sum(p) by {
                    self.lemma_start_sum_same(*old(self), p);
                }
                self.lemma_start_sum_same(*old(self), n - 1);
                assert(self.start_sum(n as int) == self.start_sum(n - 1) + self.pages@[n
                    - 1].lines@.len());
                assert forall|p: int, j: int|
                    0 <= p < self.pages@.len() && 0 <= j < self.pages@[p].lines@.len() implies
                self.pages@[p].line_start_number + j < self.history().len() && (
                #[trigger] self.pages@[p].lines@[j])@ == self.history()[
                self.pages@[p].line_start_number + j] by {
                    if p < n - 1 || j < last_len {
                        assert((#[trigger] old(self).pages@[p].lines@[j])@ == old_hist[old(
                            self,
                        ).pages@[p].line_start_number + j]);
                        assert(old_hist.push(line@)[old(self).pages@[p].line_start_number + j]
                            == old_hist[old(self).pages@[p].line_start_number + j]);
                    } else {
                        assert(old_hist.push(line@)[old_hist.len() as int] == line@);
                    }
                }
            }
        } else {
            let last_line_number = last_start + last_len;
            let mut fresh: Vec<String> = Vec::new();
            fresh.push(line);
            let page = Page { line_start_number: last_line_number, lines: fresh };
            self.pages.push(page);
            proof {
                self.hist@ = old_hist.push(line@);
                assert forall|p: int| 0 <= p < self.pages@.len() implies (
                #[trigger] self.pages@[p]).line_start_number as int == self.start_sum(p) by {
                    self.lemma_start_sum_same(*old(self), p);
                }
                self.lemma_start_sum_same(*old(self), n as int);
                assert(self.start_sum(n + 1) == self.start_sum(n as int) + 1);
                assert forall|p: int, j: int|
                    0 <= p < self.pages@.len() && 0 <= j < self.pages@[p].lines@.len() implies
                self.pages@[p].line_start_number + j < self.history().len() && (
                #[trigger] self.pages@[p].lines@[j])@ == self.history()[
                self.pages@[p].line_start_number + j] by {
                    if p < n {
                        assert(self.pages@[p] == old(self).pages@[p]);
                        assert((#[trigger] old(self).pages@[p].lines@[j])@ == old_hist[old(
                            self,
                        ).pages@[p].line_start_number + j]);
                        assert(old_hist.push(line@)[old(self).pages@[p].line_start_number + j]
                            == old_hist[old(self).pages@[p].line_start_number + j]);
                    } else {
                        assert(old_hist.push(line@)[old_hist.len() as int] == line@);
                    }
                }
            }
        }
    }

    /// Two stores whose page prefixes agree in length count alike.
    proof fn lemma_start_sum_same(self, other: Pages, p: int)
        requires
            p <= self.pages@.len(),
            p <= other.pages@.len(),
            forall|q: int|
                0 <= q < p ==> (#[trigger] self.pages@[q]).lines@.len()
                    == other.pages@[q].lines@.len(),
        ensures
            self.start_sum(p) == other.start_sum(p),
        decreases p,
    {
        if p > 0 {
            self.lemma_start_sum_same(other, p - 1);
        }
    }

    /// Page starts never decrease.
    proof fn lemma_start_sum_mono(self, a: int, b: int)
        requires
            self.wf(),
            0 <= a <= b <= self.pages@.len(),
        ensures
            self.start_sum(a) <= self.start_sum(b),
        decreases b - a,
    {
        if a < b {
            self.lemma_start_sum_mono(a, b - 1);
        }
    }

    /// The exact line stored under global number `line_number`, found by
    /// binary search over the page starts.
    pub fn get_line(&self, line_number: usize) -> (r: Option<String>)
        requires
            self.wf(),
        ensures
            line_number < self.total() ==> (r matches Some(l) && l@ == self.history()[
                line_number as int
            ]),
            line_number >= self.total() ==> r is None,
    {
        let n = self.pages.len();
        if n == 0 {
            return None;
        }
        let mut lo: usize = 0;
        let mut hi: usize = n - 1;
        while lo < hi
            invariant
                self.wf(),
                n == self.pages@.len(),
                lo <= hi < n,
                self.pages@[lo as int].line_start_number <= line_number,
                hi + 1 < n ==> self.pages@[hi + 1].line_start_number > line_number,
            decreases hi - lo,
        {
            let mid = lo + (hi - lo + 1) / 2;
            if self.pages[mid].line_start_number <= line_number {
                lo = mid;
            } else {
                proof {
                    self.lemma_start_sum_mono(mid as int, hi as int + 1);
                }
                hi = mid - 1;
                proof {
                    assert(self.pages@[hi + 1].line_start_number > line_number);
                }
            }
        }
        let start = self.pages[lo].line_start_number;
        let len = self.pages[lo].lines.len();
        if line_number - start < len {
            let l = &self.pages[lo].lines[line_number - start];
            Some(l.clone())
        } else {
            proof {
                assert(self.start_sum(lo as int + 1) == start + len);
                self.lemma_start_sum_mono(lo as int + 1, n as int);
                if lo as int + 1 < n {
                    assert(self.pages@[lo + 1].line_start_number > line_number);
                    assert(self.start_sum(lo as int + 1) > line_number);
                }
            }
            None
        }
    }
}

/// Walks the stored lines from a starting number, yielding those that
/// contain a needle.
pub struct SearchIterator {
    pages: Pages,
    search_for: String,
    /// Global number of the next line to examine.
    pub current_line_number: usize,
}

impl SearchIterator {
    /// The store walked over.
    pub closed spec fn pages_ref(&self) -> Pages {
        self.pages
    }

    /// Global number of the next line to examine.
    pub closed spec fn spec_current_line(&self) -> nat {
        self.current_line_number as nat
    }

    /// The needle, as the bytes of its text.
    pub closed spec fn needle(&self) -> Seq<u8> {
        str_bytes(self.search_for@)
    }

    /// Stored line `i` contains the needle.
    pub open spec fn hit(&self, i: int) -> bool {
        first_match(str_bytes(self.pages_ref().history()[i]), self.needle()) is Some
    }

    /// A walker over `pages` that yields the lines containing
    /// `search_for`, starting at line `current_line_number`.
    pub fn new(pages: Pages, search_for: &str, current_line_number: usize) -> (r: Self)
        ensures
            r.pages_ref() == pages,
            r.needle() == str_bytes(search_for@),
            r.spec_current_line() == current_line_number,
    {
        Self { pages, search_for: search_for.to_owned(), current_line_number }
    }

    /// The next line containing the needle, with its global number.
    pub fn next(&mut self) -> (r: Option<(usize, String)>)
        requires
            old(self).pages_ref().wf(),
        ensures
            final(self).pages_ref() == old(self).pages_ref(),
            final(self).needle() == old(self).needle(),
            r matches Some((j, l)) ==> {
                &&& old(self).spec_current_line() <= j < old(self).pages_ref().total()
                &&& l@ == old(self).pages_ref().history()[j as int]
                &&& old(self).hit(j as int)
                &&& forall|m: int| old(self).spec_current_line() <= m < j ==> !old(self).hit(m)
                &&& final(self).spec_current_line() == j + 1
            },
            r is None ==> forall|m: int|
                old(self).spec_current_line() <= m < old(self).pages_ref().total() ==> !old(
                self,
            ).hit(m),
    {
        loop
            invariant
                self.pages_ref().wf(),
                self.pages_ref() == old(self).pages_ref(),
                self.needle() == old(self).needle(),
                self.search_for == old(self).search_for,
                old(self).current_line_number <= self.current_line_number,
                forall|m: int|
                    old(self).current_line_number <= m < self.current_line_number ==> !old(
                    self,
                ).hit(m),
            decreases self.pages_ref().total() + 1 - self.current_line_number,
        {
            let i = self.current_line_number;
            match self.pages.get_line(i) {
                Some(line) => {
                    self.current_line_number = i + 1;
                    if find_first(line.as_str().as_bytes(), self.search_for.as_str().as_bytes())
                        .is_some() {
                        return Some((i, line));
                    }
                },
                None => {
                    return None;
                },
            }
        }
    }
}

} // verus!
