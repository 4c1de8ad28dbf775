//! The sorted set of global line indices that match the active search
//! query.
//!
//! The index is maintained incrementally: a freshly appended matching
//! line is pushed at the tail, and entries below the first resident
//! index are dropped after an eviction, so the index always equals the
//! set of resident matching lines.

use vstd::prelude::*;

use crate::command::Command;
use crate::pages::Pages;

verus! {

/// Sorted, deduplicated global indices of the resident lines matching
/// the active query.
pub struct MatchIndex {
    entries: Vec<usize>,
}

impl MatchIndex {
    /// The indices held, in order.
    pub closed spec fn entries_seq(&self) -> Seq<usize> {
        self.entries@
    }

    /// The index holds `j`.
    pub open spec fn contains_idx(&self, j: usize) -> bool {
        self.entries_seq().contains(j)
    }

    /// Entries are strictly increasing, hence deduplicated.
    pub open spec fn sorted(&self) -> bool {
        forall|k1: int, k2: int|
            0 <= k1 < k2 < self.entries_seq().len() ==> self.entries_seq()[k1]
                < self.entries_seq()[k2]
    }

    /// The index holds exactly the resident lines that `c` matches.
    pub open spec fn consistent(&self, p: Pages, c: Command) -> bool {
        forall|j: usize| #[trigger] self.contains_idx(j) <==> p.matches_at(c, j as int)
    }

    /// An empty index.
    pub fn new() -> (r: Self)
        ensures
            r.sorted(),
            r.entries_seq() =~= Seq::<usize>::empty(),
            forall|j: usize| !r.contains_idx(j),
    {
        MatchIndex { entries: Vec::new() }
    }

    /// The index of all resident matches of `c`, rebuilt by a full scan.
    pub fn rebuild(pages: &Pages, c: &Command) -> (r: Self)
        requires
            pages.wf(),
        ensures
            r.sorted(),
            r.consistent(*pages, *c),
    {
        MatchIndex { entries: pages.find_all_matches(c) }
    }

    /// Takes over an already sorted list of match indices.
    pub fn set_entries(&mut self, entries: Vec<usize>)
        requires
            forall|k1: int, k2: int|
                0 <= k1 < k2 < entries@.len() ==> entries@[k1] < entries@[k2],
        ensures
            final(self).entries_seq() == entries@,
            final(self).sorted(),
    {
        self.entries = entries;
    }

    /// Number of matches held.
    pub fn len(&self) -> (r: usize)
        ensures
            r == self.entries_seq().len(),
    {
        self.entries.len()
    }

    /// Appends the index of a fresh line that matched; it must lie past
    /// every held entry.
    pub fn on_append(&mut self, i: usize)
        requires
            old(self).sorted(),
            forall|k: int| 0 <= k < old(self).entries_seq().len() ==> old(self).entries_seq()[k] < i,
        ensures
            final(self).entries_seq() == old(self).entries_seq().push(i),
            final(self).sorted(),
            forall|j: usize| final(self).contains_idx(j) <==> (old(self).contains_idx(j) || j == i),
    {
        let ghost old_e = self.entries@;
        self.entries.push(i);
        proof {
            assert forall|j: usize| final(self).contains_idx(j) implies (old(self).contains_idx(j)
                || j == i) by {
                if final(self).contains_idx(j) {
                    let k = choose|k: int|
                        0 <= k < self.entries@.len() && self.entries@[k] == j;
                    if k < old_e.len() {
                        assert(old_e.contains(j));
                    }
                }
            }
            assert forall|j: usize| (old(self).contains_idx(j) || j == i) implies final(self)
                .contains_idx(j) by {
                if old(self).contains_idx(j) {
                    let k = choose|k: int| 0 <= k < old_e.len() && old_e[k] == j;
                    assert(self.entries@[k] == j);
                } else {
                    assert(self.entries@[self.entries@.len() - 1] == j);
                }
            }
        }
    }

    /// Drops every entry below `new_first`, as after an eviction.
    pub fn on_evict(&mut self, new_first: usize)
        requires
            old(self).sorted(),
        ensures
            final(self).sorted(),
            forall|j: usize| final(self).contains_idx(j) <==> (old(self).contains_idx(j) && j
                >= new_first),
            forall|k: int| 0 <= k < final(self).entries_seq().len() ==> final(self).entries_seq()[k]
                >= new_first,
    {
        let n = self.entries.len();
        let mut keep: Vec<usize> = Vec::new();
        let mut k: usize = 0;
        while k < n
            invariant
                n == self.entries@.len(),
                k <= n,
                self.entries@ == old(self).entries@,
                old(self).sorted(),
                forall|a: int, b: int| 0 <= a < b < keep@.len() ==> keep@[a] < keep@[b],
                forall|a: int| 0 <= a < keep@.len() ==> keep@[a] >= new_first,
                forall|j: usize| #[trigger] keep@.contains(j) <==> (self.entries@.take(
                    k as int,
                ).contains(j) && j >= new_first),
            decreases n - k,
        {
            let e = self.entries[k];
            let ghost old_keep = keep@;
            let ghost old_take = self.entries@.take(k as int);
            let ghost new_take = self.entries@.take(k as int + 1);
            proof {
                assert(new_take == old_take.push(e));
                assert forall|a: int| 0 <= a < old_keep.len() implies old_keep[a] < e by {
                    assert(old_keep.contains(old_keep[a]));
                    assert(old_take.contains(old_keep[a]));
                    let b = choose|b: int| 0 <= b < old_take.len() && old_take[b] == old_keep[a];
                    assert(self.entries@[b] == old_keep[a]);
                    assert(old(self).entries_seq()[b] < old(self).entries_seq()[k as int]);
                }
            }
            if e >= new_first {
                keep.push(e);
            }
            proof {
                assert forall|j: usize| #[trigger] keep@.contains(j) implies (new_take.contains(j)
                    && j >= new_first) by {
                    if keep@.contains(j) {
                        let a = choose|a: int| 0 <= a < keep@.len() && keep@[a] == j;
                        if a < old_keep.len() {
                            assert(old_keep.contains(j));
                            let b = choose|b: int|
                                0 <= b < old_take.len() && old_take[b] == j;
                            assert(new_take[b] == j);
                        } else {
                            assert(new_take[new_take.len() - 1] == j);
                        }
                    }
                }
                assert forall|j: usize| (new_take.contains(j) && j >= new_first) implies #[trigger]
                keep@.contains(j) by {
                    let b = choose|b: int| 0 <= b < new_take.len() && new_take[b] == j;
                    if b < old_take.len() {
                        assert(old_take[b] == j);
                        assert(old_take.contains(j));
                        assert(old_keep.contains(j));
                        let a = choose|a: int| 0 <= a < old_keep.len() && old_keep[a] == j;
                        assert(keep@[a] == j);
                    } else {
                        assert(j == e && e >= new_first);
                        assert(keep@[keep@.len() - 1] == j);
                    }
                }
            }
            k += 1;
        }
        proof {
            assert(self.entries@.take(n as int) =~= self.entries@);
        }
        self.entries = keep;
    }

    /// The smallest held index strictly after `i`.
    pub fn next_after(&self, i: usize) -> (r: Option<usize>)
        requires
            self.sorted(),
        ensures
            r matches Some(j) ==> self.contains_idx(j) && j > i && forall|e: usize|
                self.contains_idx(e) && e > i ==> e >= j,
            r is None ==> forall|e: usize| self.contains_idx(e) ==> e <= i,
    {
        let n = self.entries.len();
        let mut k: usize = 0;
        while k < n
            invariant
                n == self.entries@.len(),
                k <= n,
                self.sorted(),
                forall|a: int| 0 <= a < k ==> self.entries@[a] <= i,
            decreases n - k,
        {
            let e = self.entries[k];
            if e > i {
                proof {
                    assert forall|x: usize| self.contains_idx(x) && x > i implies x >= e by {
                        let a = choose|a: int|
                            0 <= a < self.entries@.len() && self.entries@[a] == x;
                        if a < k {
                        }
                    }
                    assert(self.entries@.contains(e));
                }
                return Some(e);
            }
            k += 1;
        }
        proof {
            assert forall|e: usize| self.contains_idx(e) implies e <= i by {
                let a = choose|a: int| 0 <= a < self.entries@.len() && self.entries@[a] == e;
            }
        }
        None
    }

    /// The largest held index strictly before `i`.
    pub fn prev_before(&self, i: usize) -> (r: Option<usize>)
        requires
            self.sorted(),
        ensures
            r matches Some(j) ==> self.contains_idx(j) && j < i && forall|e: usize|
                self.contains_idx(e) && e < i ==> e <= j,
            r is None ==> forall|e: usize| self.contains_idx(e) ==> e >= i,
    {
        let n = self.entries.len();
        let mut k: usize = n;
        while k > 0
            invariant
                n == self.entries@.len(),
                k <= n,
                self.sorted(),
                forall|a: int| k <= a < n ==> self.entries@[a] >= i,
            decreases k,
        {
            k -= 1;
            let e = self.entries[k];
            if e < i {
                proof {
                    assert forall|x: usize| self.contains_idx(x) && x < i implies x <= e by {
                        let a = choose|a: int|
                            0 <= a < self.entries@.len() && self.entries@[a] == x;
                        if a > k {
                        }
                    }
                    assert(self.entries@.contains(e));
                }
                return Some(e);
            }
        }
        proof {
            assert forall|e: usize| self.contains_idx(e) implies e >= i by {
                let a = choose|a: int| 0 <= a < self.entries@.len() && self.entries@[a] == e;
            }
        }
        None
    }

    /// Number of held indices at or below `x`.
    pub open spec fn count_le(s: Seq<usize>, x: usize) -> nat
        decreases s.len(),
    {
        if s.len() == 0 {
            0
        } else {
            Self::count_le(s.drop_last(), x) + if s.last() <= x {
                1nat
            } else {
                0nat
            }
        }
    }

    /// The cursor's rank: the 1-based position of `idx` among the
    /// matches when `idx` is itself a match; otherwise the number of
    /// matches at or below `idx`, or 1 when there is none.  Paired with
    /// the total number of matches.
    pub fn rank_at(&self, idx: usize) -> (r: (usize, usize))
        requires
            self.sorted(),
        ensures
            r.1 == self.entries_seq().len(),
            r.0 == if Self::count_le(self.entries_seq(), idx) == 0 {
                1nat
            } else {
                Self::count_le(self.entries_seq(), idx)
            },
    {
        let n = self.entries.len();
        let mut k: usize = 0;
        let mut cnt: usize = 0;
        proof {
            assert(self.entries@.take(0) =~= Seq::<usize>::empty());
        }
        while k < n
            invariant
                n == self.entries@.len(),
                k <= n,
                cnt <= k,
                cnt == Self::count_le(self.entries@.take(k as int), idx),
            decreases n - k,
        {
            proof {
                assert(self.entries@.take(k as int + 1).drop_last() =~= self.entries@.take(
                    k as int,
                ));
                assert(self.entries@.take(k as int + 1).last() == self.entries@[k as int]);
            }
            if self.entries[k] <= idx {
                cnt += 1;
            }
            k += 1;
        }
        proof {
            assert(self.entries@.take(n as int) =~= self.entries@);
        }
        if cnt == 0 {
            (1, n)
        } else {
            (cnt, n)
        }
    }
}

/// A consistent index is sorted, deduplicated, and contained in the
/// resident range `[first_index, lines_count)`.
pub proof fn lemma_match_index_in_range(m: MatchIndex, p: Pages, c: Command)
    requires
        m.sorted(),
        m.consistent(p, c),
    ensures
        forall|k: int|
            0 <= k < m.entries_seq().len() ==> p.spec_first_index() <= #[trigger] m.entries_seq()[k]
                < p.spec_lines_count(),
        forall|k1: int, k2: int|
            0 <= k1 < k2 < m.entries_seq().len() ==> m.entries_seq()[k1] < m.entries_seq()[k2],
{
    assert forall|k: int| 0 <= k < m.entries_seq().len() implies p.spec_first_index()
        <= #[trigger] m.entries_seq()[k] < p.spec_lines_count() by {
        let j = m.entries_seq()[k];
        assert(m.entries_seq().contains(j));
        assert(m.contains_idx(j));
    }
}

} // verus!
