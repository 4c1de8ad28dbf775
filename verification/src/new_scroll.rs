//! The wrap-aware scroll state machine.
//!
//! The viewport is anchored at its bottom row by a global line index and
//! a wrapped sub-line skip.  With autoscroll on, the anchor tracks the
//! tail; otherwise the stored anchor is authoritative.  When a filter is
//! set, only lines it passes are considered for anchoring and rendering.
//! Scrolling moves the anchor one rendered sub-line at a time, and
//! `normalize` keeps the viewport full whenever enough matching content
//! exists.

use vstd::prelude::*;

use crate::command::Command;
use crate::command::accepts;
use crate::command::command_match;
use crate::match_index::MatchIndex;
use crate::pages::Pages;
use crate::wrap::spec_wrap;
use crate::wrap::wrap_count;
use crate::wrap::wrap_line;
use crate::wrap::lemma_wrap_count_pos;

verus! {

/// One scroll or resize instruction for the state machine.
#[derive(Debug, Clone, Copy)]
pub enum InstructionQueue {
    /// No pending instruction; autoscroll may still follow the tail.
    Idle,
    /// Move the view one rendered sub-line toward the top.
    Up,
    /// Move the view one rendered sub-line toward the bottom.
    Down,
    /// The viewport was resized.
    Resize { width: usize, height: usize },
    /// Jump to a global line index.
    JumpTo(usize),
}

/// Highlight style of a painted range.
#[derive(Debug, Clone, Copy, PartialEq, Eq, Structural)]
pub enum HighlightKind {
    /// The active search hit under the cursor.
    CurrentHit,
    /// A line matched by the active search query.
    SearchMatch,
    /// The cursor's line, without a byte range.
    CursorLine,
}

/// One visual row: a wrapped sub-line of a stored line, as a byte range,
/// with its highlight.
pub struct LineWithIdx {
    /// Global index of the line this row belongs to.
    pub idx: usize,
    /// First byte of the sub-line within the line.
    pub start: usize,
    /// One past the last byte of the sub-line within the line.
    pub end: usize,
    /// Byte range to paint emphasized, intersected with this sub-line,
    /// and its style.
    pub highlight: Option<(usize, usize, HighlightKind)>,
}

/// The rows to paint and the window of them that is visible.
pub struct LinesToRenderAndView {
    /// Rows, bottom row first.
    pub lines: Vec<LineWithIdx>,
    /// Half-open range of `lines` that the viewport shows.
    pub view: (usize, usize),
}

/// Overlap of two half-open byte ranges.
pub open spec fn range_inter(a: (usize, usize), b: (usize, usize)) -> Option<(usize, usize)> {
    let lo = if a.0 >= b.0 {
        a.0
    } else {
        b.0
    };
    let hi = if a.1 <= b.1 {
        a.1
    } else {
        b.1
    };
    if lo < hi {
        Some((lo, hi))
    } else {
        None
    }
}

/// The scroll state machine: viewport geometry, autoscroll, the manual
/// bottom anchor, cursor and highlight state, the active filter and
/// search query, and the index of search matches.
pub struct PageScrollState {
    width: usize,
    height: usize,
    show_line_numbers: bool,
    auto_scroll: bool,
    bottom_line_idx: usize,
    bottom_line_wrapped_skip: usize,
    cursor_idx: Option<usize>,
    cursor_range: Option<(usize, usize)>,
    filter: Option<Command>,
    search_query: Option<Command>,
    matches: MatchIndex,
}

impl PageScrollState {
    /// Viewport width in cells.
    pub closed spec fn spec_width(&self) -> nat {
        self.width as nat
    }

    /// Viewport height in rows.
    pub closed spec fn spec_height(&self) -> nat {
        self.height as nat
    }

    /// Whether the line-number gutter is shown.
    pub closed spec fn spec_show_line_numbers(&self) -> bool {
        self.show_line_numbers
    }

    /// Whether the anchor tracks the tail.
    pub closed spec fn spec_auto_scroll(&self) -> bool {
        self.auto_scroll
    }

    /// The manual anchor's line index.
    pub closed spec fn spec_bottom(&self) -> nat {
        self.bottom_line_idx as nat
    }

    /// The manual anchor's wrapped sub-line skip.
    pub closed spec fn spec_skip(&self) -> nat {
        self.bottom_line_wrapped_skip as nat
    }

    /// The cursor's line, if set.
    pub closed spec fn spec_cursor(&self) -> Option<usize> {
        self.cursor_idx
    }

    /// The byte range of the current hit, if set.
    pub closed spec fn spec_cursor_range(&self) -> Option<(usize, usize)> {
        self.cursor_range
    }

    /// The active filter query.
    pub closed spec fn spec_filter(&self) -> Option<Command> {
        self.filter
    }

    /// The active search query.
    pub closed spec fn spec_search(&self) -> Option<Command> {
        self.search_query
    }

    /// The index of search matches.
    pub closed spec fn spec_matches(&self) -> MatchIndex {
        self.matches
    }

    /// The wrap width: the viewport width minus the six-cell gutter when
    /// line numbers are shown, and at least one cell.
    pub open spec fn eff_width(&self) -> nat {
        if self.spec_show_line_numbers() {
            if self.spec_width() >= 7 {
                (self.spec_width() - 6) as nat
            } else {
                1
            }
        } else {
            if self.spec_width() >= 1 {
                self.spec_width() as nat
            } else {
                1
            }
        }
    }

    /// Resident line `i` passes the active filter.
    pub open spec fn line_ok(&self, p: Pages, i: int) -> bool {
        match self.spec_filter() {
            Some(c) => accepts(c, p.history()[i]),
            None => true,
        }
    }

    /// Number of wrapped sub-lines of resident line `i` at the current
    /// width.
    pub open spec fn wc(&self, p: Pages, i: int) -> nat {
        wrap_count(p.history()[i], self.eff_width())
    }

    /// Total sub-lines of the filter-passing resident lines strictly
    /// below index `i`, counted from `first_index`.
    pub open spec fn sum_wc(&self, p: Pages, i: int) -> nat
        decreases i,
    {
        if i <= p.spec_first_index() {
            0
        } else {
            self.sum_wc(p, i - 1) + if self.line_ok(p, i - 1) {
                self.wc(p, i - 1)
            } else {
                0
            }
        }
    }

    /// Sub-lines the anchor line itself shows, after consuming `skip`.
    pub open spec fn own_rows(&self, p: Pages, i: int, skip: nat) -> nat {
        if self.line_ok(p, i) {
            if skip <= self.wc(p, i) {
                (self.wc(p, i) - skip) as nat
            } else {
                0
            }
        } else {
            0
        }
    }

    /// Rendered sub-lines available from anchor `(i, skip)` up to the
    /// top of the store.
    pub open spec fn visible_from(&self, p: Pages, i: int, skip: nat) -> nat {
        self.own_rows(p, i, skip) + self.sum_wc(p, i)
    }

    /// The top of the store is visible: the content from the manual
    /// anchor upward cannot fill the viewport.
    pub open spec fn spec_top_reached(&self, p: Pages) -> bool {
        self.visible_from(p, self.spec_bottom() as int, self.spec_skip()) < self.spec_height()
    }

    /// The nearest filter-passing resident line strictly before `i`.
    pub open spec fn prev_ok_line(&self, p: Pages, i: int) -> Option<int>
        decreases i,
    {
        if i <= p.spec_first_index() {
            None
        } else if self.line_ok(p, i - 1) {
            Some(i - 1)
        } else {
            self.prev_ok_line(p, i - 1)
        }
    }

    /// The nearest filter-passing resident line strictly after `i`.
    pub open spec fn next_ok_line(&self, p: Pages, i: int) -> Option<int>
        decreases p.spec_lines_count() - i,
    {
        if i + 1 >= p.spec_lines_count() {
            None
        } else if self.line_ok(p, i + 1) {
            Some(i + 1)
        } else {
            self.next_ok_line(p, i + 1)
        }
    }

    /// The last filter-passing resident line, if any.
    pub open spec fn last_ok_line(&self, p: Pages) -> Option<int> {
        self.prev_ok_line(p, p.spec_lines_count() as int)
    }

    /// The state is well formed against the store: with autoscroll off
    /// the anchor is a resident line and its skip stays below the line's
    /// wrap count; the cursor, if set, is resident; the match index is
    /// sorted.
    pub open spec fn inv(&self, p: Pages) -> bool {
        &&& (self.spec_auto_scroll() || p.spec_first_index() <= self.spec_bottom()
            < p.spec_lines_count())
        &&& (match self.spec_cursor() {
            Some(ci) => p.resident(ci as int),
            None => true,
        })
        &&& self.spec_matches().sorted()
    }

    /// A fresh state: autoscroll on, no cursor, no filter, no search.
    pub fn new() -> (r: Self)
        ensures
            r.spec_auto_scroll(),
            r.spec_width() == 0,
            r.spec_height() == 0,
            !r.spec_show_line_numbers(),
            r.spec_cursor() is None,
            r.spec_cursor_range() is None,
            r.spec_filter() is None,
            r.spec_search() is None,
            r.spec_matches().sorted(),
            r.spec_matches().entries_seq() == Seq::<usize>::empty(),
            forall|j: usize| !r.spec_matches().contains_idx(j),
            forall|p: Pages| r.inv(p),
    {
        PageScrollState {
            width: 0,
            height: 0,
            show_line_numbers: false,
            auto_scroll: true,
            bottom_line_idx: 0,
            bottom_line_wrapped_skip: 0,
            cursor_idx: None,
            cursor_range: None,
            filter: None,
            search_query: None,
            matches: MatchIndex::new(),
        }
    }

    /// Whether autoscroll is on.
    pub fn auto_scroll(&self) -> (r: bool)
        ensures
            r == self.spec_auto_scroll(),
    {
        self.auto_scroll
    }

    /// Whether the line-number gutter is shown.
    pub fn show_line_numbers(&self) -> (r: bool)
        ensures
            r == self.spec_show_line_numbers(),
    {
        self.show_line_numbers
    }

    /// The manual anchor's line index.
    pub fn bottom_line_idx(&self) -> (r: usize)
        ensures
            r == self.spec_bottom(),
    {
        self.bottom_line_idx
    }

    /// The manual anchor's wrapped sub-line skip.
    pub fn bottom_line_wrapped_skip(&self) -> (r: usize)
        ensures
            r == self.spec_skip(),
    {
        self.bottom_line_wrapped_skip
    }

    /// The cursor's line, if set.
    pub fn cursor_idx(&self) -> (r: Option<usize>)
        ensures
            r == self.spec_cursor(),
    {
        self.cursor_idx
    }
}

} // verus!

verus! {

impl PageScrollState {
    /// A found previous line passes the filter, lies in range, and
    /// nothing between it and the start misses.
    pub proof fn lemma_prev_ok_props(&self, p: Pages, i: int)
        ensures
            self.prev_ok_line(p, i) matches Some(j) ==> {
                &&& p.spec_first_index() <= j < i
                &&& self.line_ok(p, j)
                &&& forall|m: int| j < m < i ==> !self.line_ok(p, m)
            },
            self.prev_ok_line(p, i) is None ==> forall|m: int|
                p.spec_first_index() <= m < i ==> !self.line_ok(p, m),
        decreases i,
    {
        if i > p.spec_first_index() && !self.line_ok(p, i - 1) {
            self.lemma_prev_ok_props(p, i - 1);
        }
    }

    /// A found next line passes the filter, lies in range, and nothing
    /// between misses.
    pub proof fn lemma_next_ok_props(&self, p: Pages, i: int)
        ensures
            self.next_ok_line(p, i) matches Some(j) ==> {
                &&& i < j < p.spec_lines_count()
                &&& self.line_ok(p, j)
                &&& forall|m: int| i < m < j ==> !self.line_ok(p, m)
            },
            self.next_ok_line(p, i) is None ==> forall|m: int|
                i < m < p.spec_lines_count() ==> !self.line_ok(p, m),
        decreases p.spec_lines_count() - i,
    {
        if i + 1 < p.spec_lines_count() && !self.line_ok(p, i + 1) {
            self.lemma_next_ok_props(p, i + 1);
        }
    }

    /// The wrap width as a cell count.
    pub fn eff_width_exec(&self) -> (r: usize)
        ensures
            r == self.eff_width(),
    {
        if self.show_line_numbers {
            if self.width >= 7 {
                self.width - 6
            } else {
                1
            }
        } else {
            if self.width >= 1 {
                self.width
            } else {
                1
            }
        }
    }

    /// Whether resident line `i` passes the active filter.
    fn check_line_ok(&self, p: &Pages, i: usize) -> (r: bool)
        requires
            p.wf(),
            p.resident(i as int),
        ensures
            r == self.line_ok(*p, i as int),
    {
        match &self.filter {
            Some(c) => match p.get_line(i) {
                Some(l) => c.matches_line(l),
                None => vstd::pervasive::unreached(),
            },
            None => true,
        }
    }

    /// Number of wrapped sub-lines of resident line `i` at the current
    /// width.
    fn line_wc(&self, p: &Pages, i: usize) -> (r: usize)
        requires
            p.wf(),
            p.resident(i as int),
        ensures
            r == self.wc(*p, i as int),
            r >= 1,
    {
        match p.get_line(i) {
            Some(l) => {
                let ln = l.len();
                proof {
                    assert(l@.len() == ln);
                    lemma_wrap_count_pos(l@, self.eff_width());
                }
                let rows = wrap_line(l, self.eff_width_exec());
                rows.len()
            },
            None => vstd::pervasive::unreached(),
        }
    }

    /// The nearest filter-passing resident line before `i`.
    fn find_prev_ok(&self, p: &Pages, i: usize) -> (r: Option<usize>)
        requires
            p.wf(),
            i <= p.spec_lines_count(),
        ensures
            match r {
                Some(j) => self.prev_ok_line(*p, i as int) == Some(j as int),
                None => self.prev_ok_line(*p, i as int) is None,
            },
    {
        let first = p.first_index();
        let mut j: usize = i;
        while j > first
            invariant
                p.wf(),
                first == p.spec_first_index(),
                j <= i <= p.spec_lines_count(),
                self.prev_ok_line(*p, i as int) == self.prev_ok_line(*p, j as int),
            decreases j,
        {
            if self.check_line_ok(p, j - 1) {
                return Some(j - 1);
            }
            j -= 1;
        }
        None
    }

    /// The nearest filter-passing resident line after `i`.
    fn find_next_ok(&self, p: &Pages, i: usize) -> (r: Option<usize>)
        requires
            p.wf(),
            i + 1 >= p.spec_first_index(),
        ensures
            match r {
                Some(j) => self.next_ok_line(*p, i as int) == Some(j as int),
                None => self.next_ok_line(*p, i as int) is None,
            },
    {
        let total = p.lines_count();
        if total == 0 {
            return None;
        }
        let mut j: usize = i;
        while j < total - 1
            invariant
                p.wf(),
                total == p.spec_lines_count(),
                total >= 1,
                i <= j,
                j + 1 >= p.spec_first_index(),
                self.next_ok_line(*p, i as int) == self.next_ok_line(*p, j as int),
            decreases total - j,
        {
            if self.check_line_ok(p, j + 1) {
                return Some(j + 1);
            }
            j += 1;
        }
        None
    }

    /// Whether anchor `(b, skip)` can fill at least `target` rows.
    fn fills_height(&self, p: &Pages, b: usize, skip: usize, target: usize) -> (r: bool)
        requires
            p.wf(),
            p.resident(b as int),
        ensures
            r == (self.visible_from(*p, b as int, skip as nat) >= target),
    {
        let first = p.first_index();
        let mut acc: usize = 0;
        if self.check_line_ok(p, b) {
            let w = self.line_wc(p, b);
            if skip < w {
                let own = w - skip;
                if own >= target {
                    return true;
                }
                acc = own;
            }
        }
        if acc >= target {
            return true;
        }
        let mut j: usize = b;
        while j > first
            invariant
                p.wf(),
                first == p.spec_first_index(),
                first <= j <= b,
                p.resident(b as int),
                acc + self.sum_wc(*p, j as int) == self.visible_from(*p, b as int, skip as nat),
                acc < target,
            decreases j,
        {
            if self.check_line_ok(p, j - 1) {
                let w = self.line_wc(p, j - 1);
                if w >= target - acc {
                    proof {
                        assert(self.sum_wc(*p, j as int) == self.sum_wc(*p, j - 1) + self.wc(
                            *p,
                            j - 1,
                        ));
                    }
                    return true;
                }
                acc += w;
            }
            proof {
                assert(self.sum_wc(*p, j as int) == self.sum_wc(*p, j - 1) + if self.line_ok(
                    *p,
                    j - 1,
                ) {
                    self.wc(*p, j - 1)
                } else {
                    0
                });
            }
            j -= 1;
        }
        false
    }

    /// Whether the top of the content is visible from the manual anchor.
    pub fn top_reached(&self, p: &Pages) -> (r: bool)
        requires
            p.wf(),
            !self.spec_auto_scroll(),
            self.inv(*p),
            p.spec_lines_count() > p.spec_first_index(),
        ensures
            r == self.spec_top_reached(*p),
    {
        !self.fills_height(p, self.bottom_line_idx, self.bottom_line_wrapped_skip, self.height)
    }
}

} // verus!

verus! {

impl PageScrollState {
    /// The same state with another manual anchor.
    pub closed spec fn with_anchor(self, b: nat, skip: nat) -> Self {
        PageScrollState {
            bottom_line_idx: b as usize,
            bottom_line_wrapped_skip: skip as usize,
            ..self
        }
    }

    /// The same state with autoscroll switched.
    pub closed spec fn with_auto(self, a: bool) -> Self {
        PageScrollState { auto_scroll: a, ..self }
    }

    /// Autoscroll off, anchored at the last line's last sub-line.
    pub open spec fn anchor_tail(self, p: Pages) -> Self {
        self.with_anchor((p.spec_lines_count() - 1) as nat, 0).with_auto(false)
    }

    /// While the top is visible and a filter-passing line lies past the
    /// anchor, the anchor advances to it; the viewport is never left
    /// short when enough matching content exists.
    pub closed spec fn spec_normalize(self, p: Pages) -> Self
        decreases p.spec_lines_count() - self.spec_bottom()
            when p.spec_lines_count() <= usize::MAX via Self::normalize_decreases
    {
        if !self.spec_top_reached(p) {
            self
        } else {
            match self.next_ok_line(p, self.spec_bottom() as int) {
                Some(j) => self.with_anchor(j as nat, 0).spec_normalize(p),
                None => self,
            }
        }
    }

    #[via_fn]
    proof fn normalize_decreases(self, p: Pages) {
        self.lemma_next_ok_props(p, self.spec_bottom() as int);
        match self.next_ok_line(p, self.spec_bottom() as int) {
            Some(j) => {
                assert(self.with_anchor(j as nat, 0).spec_bottom() == j);
            },
            None => {},
        }
    }

    /// One step toward the top: leave autoscroll anchored at the tail,
    /// stop when the top is already visible, otherwise consume a sub-line
    /// of the anchor line or move to the previous filter-passing line,
    /// and normalize.
    pub closed spec fn spec_scroll_up(self, p: Pages) -> Self {
        if p.spec_lines_count() <= p.spec_first_index() {
            self
        } else {
            let s1 = if self.spec_auto_scroll() {
                self.anchor_tail(p)
            } else {
                self
            };
            if s1.spec_top_reached(p) {
                s1
            } else if s1.line_ok(p, s1.spec_bottom() as int) && s1.spec_skip() + 1 < s1.wc(
                p,
                s1.spec_bottom() as int,
            ) {
                s1.with_anchor(s1.spec_bottom(), s1.spec_skip() + 1).spec_normalize(p)
            } else {
                match s1.prev_ok_line(p, s1.spec_bottom() as int) {
                    Some(j) => s1.with_anchor(j as nat, 0).spec_normalize(p),
                    None => s1,
                }
            }
        }
    }

    /// One step toward the bottom: a no-op under autoscroll, otherwise
    /// restore a consumed sub-line or move to the next filter-passing
    /// line, re-enabling autoscroll when that line is the last one.
    pub closed spec fn spec_scroll_down(self, p: Pages) -> Self {
        if self.spec_auto_scroll() || p.spec_lines_count() <= p.spec_first_index() {
            self
        } else if self.spec_skip() > 0 {
            self.with_anchor(self.spec_bottom(), (self.spec_skip() - 1) as nat)
        } else {
            match self.next_ok_line(p, self.spec_bottom() as int) {
                Some(j) => {
                    let s2 = self.with_anchor(j as nat, 0);
                    if j == p.spec_lines_count() - 1 {
                        s2.with_auto(true)
                    } else {
                        s2
                    }
                },
                None => self,
            }
        }
    }

    /// `normalize` only moves the anchor, keeps it resident, and stops
    /// either with the viewport fillable or with no matching line left
    /// past the anchor.
    pub proof fn lemma_normalize_props(self, p: Pages)
        requires
            p.spec_first_index() <= self.spec_bottom() < p.spec_lines_count(),
            p.spec_lines_count() <= usize::MAX,
        ensures
            ({
                let n = self.spec_normalize(p);
                &&& p.spec_first_index() <= n.spec_bottom() < p.spec_lines_count()
                &&& self.spec_bottom() <= n.spec_bottom()
                &&& n == self.with_anchor(n.spec_bottom(), n.spec_skip())
                &&& !n.spec_top_reached(p) || n.next_ok_line(p, n.spec_bottom() as int) is None
            }),
        decreases p.spec_lines_count() - self.spec_bottom(),
    {
        self.lemma_next_ok_props(p, self.spec_bottom() as int);
        if !self.spec_top_reached(p) {
            assert(self == self.with_anchor(self.spec_bottom(), self.spec_skip()));
        } else {
            match self.next_ok_line(p, self.spec_bottom() as int) {
                Some(j) => {
                    let s2 = self.with_anchor(j as nat, 0);
                    assert(s2.spec_bottom() == j);
                    s2.lemma_normalize_props(p);
                },
                None => {
                    assert(self == self.with_anchor(self.spec_bottom(), self.spec_skip()));
                },
            }
        }
    }

    /// Advances the anchor forward until the viewport can be filled or
    /// no filter-passing line remains past it.
    pub fn normalize(&mut self, p: &Pages)
        requires
            p.wf(),
            old(self).inv(*p),
            !old(self).spec_auto_scroll(),
        ensures
            final(self).inv(*p),
            *final(self) == old(self).spec_normalize(*p),
            final(self).spec_search() == old(self).spec_search(),
            final(self).spec_filter() == old(self).spec_filter(),
            final(self).spec_matches() == old(self).spec_matches(),
            final(self).spec_width() == old(self).spec_width(),
            final(self).spec_height() == old(self).spec_height(),
            final(self).spec_show_line_numbers() == old(self).spec_show_line_numbers(),
            final(self).spec_cursor() == old(self).spec_cursor(),
            final(self).spec_cursor_range() == old(self).spec_cursor_range(),
            final(self).spec_auto_scroll() == old(self).spec_auto_scroll(),
    {
        let total = p.lines_count();
        loop
            invariant
                p.wf(),
                total == p.spec_lines_count(),
                self.inv(*p),
                !self.spec_auto_scroll(),
                old(self).spec_normalize(*p) == self.spec_normalize(*p),
                self.spec_search() == old(self).spec_search(),
                self.spec_filter() == old(self).spec_filter(),
                self.spec_matches() == old(self).spec_matches(),
                self.spec_width() == old(self).spec_width(),
                self.spec_height() == old(self).spec_height(),
                self.spec_show_line_numbers() == old(self).spec_show_line_numbers(),
                self.spec_cursor() == old(self).spec_cursor(),
                self.spec_cursor_range() == old(self).spec_cursor_range(),
                self.spec_auto_scroll() == old(self).spec_auto_scroll(),
            decreases total - self.spec_bottom(),
        {
            if !self.top_reached(p) {
                return ;
            }
            proof {
                self.lemma_next_ok_props(*p, self.spec_bottom() as int);
            }
            let next = self.find_next_ok(p, self.bottom_line_idx);
            match next {
                Some(j) => {
                    proof {
                        let s2 = self.with_anchor(j as nat, 0);
                        assert(self.spec_normalize(*p) == s2.spec_normalize(*p));
                    }
                    self.bottom_line_idx = j;
                    self.bottom_line_wrapped_skip = 0;
                },
                None => {
                    return ;
                },
            }
        }
    }

    /// Moves the view one rendered sub-line toward the top.
    pub fn scroll_up(&mut self, p: &Pages)
        requires
            p.wf(),
            old(self).inv(*p),
        ensures
            final(self).inv(*p),
            *final(self) == old(self).spec_scroll_up(*p),
            final(self).spec_search() == old(self).spec_search(),
            final(self).spec_filter() == old(self).spec_filter(),
            final(self).spec_matches() == old(self).spec_matches(),
            final(self).spec_width() == old(self).spec_width(),
            final(self).spec_height() == old(self).spec_height(),
            final(self).spec_show_line_numbers() == old(self).spec_show_line_numbers(),
    {
        let total = p.lines_count();
        let first = p.first_index();
        if total <= first {
            return ;
        }
        if self.auto_scroll {
            self.auto_scroll = false;
            self.bottom_line_idx = total - 1;
            self.bottom_line_wrapped_skip = 0;
            proof {
                assert(*self == old(self).anchor_tail(*p));
            }
        }
        if self.top_reached(p) {
            return ;
        }
        let b = self.bottom_line_idx;
        let ok_b = self.check_line_ok(p, b);
        let w = self.line_wc(p, b);
        if ok_b && self.bottom_line_wrapped_skip < w - 1 {
            self.bottom_line_wrapped_skip = self.bottom_line_wrapped_skip + 1;
            self.normalize(p);
        } else {
            match self.find_prev_ok(p, b) {
                Some(j) => {
                    proof {
                        self.lemma_prev_ok_props(*p, b as int);
                    }
                    self.bottom_line_idx = j;
                    self.bottom_line_wrapped_skip = 0;
                    self.normalize(p);
                },
                None => {},
            }
        }
    }

    /// Moves the view one rendered sub-line toward the bottom.
    pub fn scroll_down(&mut self, p: &Pages)
        requires
            p.wf(),
            old(self).inv(*p),
        ensures
            final(self).inv(*p),
            *final(self) == old(self).spec_scroll_down(*p),
            final(self).spec_search() == old(self).spec_search(),
            final(self).spec_filter() == old(self).spec_filter(),
            final(self).spec_matches() == old(self).spec_matches(),
            final(self).spec_width() == old(self).spec_width(),
            final(self).spec_height() == old(self).spec_height(),
            final(self).spec_show_line_numbers() == old(self).spec_show_line_numbers(),
    {
        let total = p.lines_count();
        let first = p.first_index();
        if self.auto_scroll || total <= first {
            return ;
        }
        if self.bottom_line_wrapped_skip > 0 {
            self.bottom_line_wrapped_skip = self.bottom_line_wrapped_skip - 1;
            return ;
        }
        proof {
            self.lemma_next_ok_props(*p, self.spec_bottom() as int);
        }
        match self.find_next_ok(p, self.bottom_line_idx) {
            Some(j) => {
                self.bottom_line_idx = j;
                self.bottom_line_wrapped_skip = 0;
                if j == total - 1 {
                    self.auto_scroll = true;
                }
            },
            None => {},
        }
    }
}

} // verus!

verus! {

impl PageScrollState {
    /// More lines can only add rendered sub-lines.
    pub proof fn lemma_sum_wc_mono(self, p: Pages, a: int, b: int)
        requires
            a <= b,
        ensures
            self.sum_wc(p, a) <= self.sum_wc(p, b),
        decreases b - a,
    {
        if a < b {
            self.lemma_sum_wc_mono(p, a, b - 1);
        }
    }

    /// The same state with another cursor and hit range.
    pub closed spec fn with_cursor(self, c: Option<usize>, r: Option<(usize, usize)>) -> Self {
        PageScrollState { cursor_idx: c, cursor_range: r, ..self }
    }

    /// Rendered rows strictly below the top row of line `i`, measured
    /// from the manual anchor.
    pub open spec fn rows_below(self, p: Pages, i: int) -> int {
        if i >= self.spec_bottom() {
            0
        } else {
            self.own_rows(p, self.spec_bottom() as int, self.spec_skip()) + self.sum_wc(
                p,
                self.spec_bottom() as int,
            ) - self.sum_wc(p, i + 1)
        }
    }

    /// Line `i` has at least one row inside the viewport of the manual
    /// anchor.
    pub open spec fn is_visible(self, p: Pages, i: int) -> bool {
        &&& self.line_ok(p, i)
        &&& i <= self.spec_bottom()
        &&& self.rows_below(p, i) < self.spec_height()
    }

    /// A jump inside the resident range disables autoscroll, re-anchors
    /// at the target unless it is already visible, sets the cursor and
    /// hit range, and normalizes; a jump outside changes nothing.
    pub closed spec fn spec_jump(self, p: Pages, i: nat, r: Option<(usize, usize)>) -> Self {
        if !(p.spec_first_index() <= i < p.spec_lines_count()) {
            self
        } else {
            let s1 = if self.spec_auto_scroll() {
                self.anchor_tail(p)
            } else {
                self.with_auto(false)
            };
            let s2 = if !s1.is_visible(p, i as int) {
                s1.with_anchor(i, 0)
            } else {
                s1
            };
            s2.with_cursor(Some(i as usize), r).spec_normalize(p)
        }
    }

    /// Whether line `i` currently has a row inside the viewport of the
    /// manual anchor.
    fn visible_exec(&self, p: &Pages, i: usize) -> (r: bool)
        requires
            p.wf(),
            !self.spec_auto_scroll(),
            self.inv(*p),
            p.resident(i as int),
        ensures
            r == self.is_visible(*p, i as int),
    {
        if !self.check_line_ok(p, i) {
            return false;
        }
        let b = self.bottom_line_idx;
        if i > b {
            return false;
        }
        if i == b {
            return 0 < self.height;
        }
        let skip = self.bottom_line_wrapped_skip;
        let mut acc: usize = 0;
        if self.check_line_ok(p, b) {
            let w = self.line_wc(p, b);
            if skip < w {
                acc = w - skip;
            }
        }
        if acc >= self.height {
            proof {
                self.lemma_sum_wc_mono(*p, i + 1, b as int);
            }
            return false;
        }
        let mut j: usize = b;
        while j > i + 1
            invariant
                p.wf(),
                p.resident(b as int),
                p.resident(i as int),
                i + 1 <= j <= b,
                acc + self.sum_wc(*p, j as int) - self.sum_wc(*p, i + 1) == self.rows_below(
                    *p,
                    i as int,
                ),
                acc < self.spec_height(),
            decreases j,
        {
            proof {
                assert(self.sum_wc(*p, j as int) == self.sum_wc(*p, j - 1) + if self.line_ok(
                    *p,
                    j - 1,
                ) {
                    self.wc(*p, j - 1)
                } else {
                    0
                });
            }
            if self.check_line_ok(p, j - 1) {
                let w = self.line_wc(p, j - 1);
                if w >= self.height - acc {
                    proof {
                        self.lemma_sum_wc_mono(*p, i + 1, j - 1);
                    }
                    return false;
                }
                acc += w;
            }
            j -= 1;
        }
        proof {
            assert(self.sum_wc(*p, j as int) == self.sum_wc(*p, i + 1));
        }
        acc < self.height
    }

    /// Jumps to line `i`: inside the resident range the view re-anchors
    /// on it unless it is already visible, the cursor moves to it with
    /// the given hit range, and the view normalizes; outside the range
    /// nothing changes and failure is reported.
    pub fn jump_to_with_range(&mut self, p: &Pages, i: usize, r: Option<(usize, usize)>) -> (ok:
        bool)
        requires
            p.wf(),
            old(self).inv(*p),
        ensures
            final(self).inv(*p),
            *final(self) == old(self).spec_jump(*p, i as nat, r),
            ok == (p.spec_first_index() <= i < p.spec_lines_count()),
            ok ==> !final(self).spec_auto_scroll() && final(self).spec_cursor() == Some(i)
                && final(self).spec_cursor_range() == r,
            !ok ==> *final(self) == *old(self),
            final(self).spec_search() == old(self).spec_search(),
            final(self).spec_filter() == old(self).spec_filter(),
            final(self).spec_matches() == old(self).spec_matches(),
            final(self).spec_width() == old(self).spec_width(),
            final(self).spec_height() == old(self).spec_height(),
            final(self).spec_show_line_numbers() == old(self).spec_show_line_numbers(),
    {
        let total = p.lines_count();
        let first = p.first_index();
        if !(first <= i && i < total) {
            return false;
        }
        if self.auto_scroll {
            self.auto_scroll = false;
            self.bottom_line_idx = total - 1;
            self.bottom_line_wrapped_skip = 0;
            proof {
                assert(*self == old(self).anchor_tail(*p));
            }
        } else {
            proof {
                assert(*self == old(self).with_auto(false));
            }
        }
        if !self.visible_exec(p, i) {
            self.bottom_line_idx = i;
            self.bottom_line_wrapped_skip = 0;
        }
        self.cursor_idx = Some(i);
        self.cursor_range = r;
        self.normalize(p);
        true
    }

    /// Jumps to line `i` without a hit range.
    pub fn jump_to(&mut self, p: &Pages, i: usize) -> (ok: bool)
        requires
            p.wf(),
            old(self).inv(*p),
        ensures
            final(self).inv(*p),
            *final(self) == old(self).spec_jump(*p, i as nat, None),
            ok == (p.spec_first_index() <= i < p.spec_lines_count()),
            ok ==> !final(self).spec_auto_scroll() && final(self).spec_cursor() == Some(i)
                && final(self).spec_cursor_range() is None,
            !ok ==> *final(self) == *old(self),
            final(self).spec_search() == old(self).spec_search(),
            final(self).spec_filter() == old(self).spec_filter(),
            final(self).spec_matches() == old(self).spec_matches(),
            final(self).spec_width() == old(self).spec_width(),
            final(self).spec_height() == old(self).spec_height(),
            final(self).spec_show_line_numbers() == old(self).spec_show_line_numbers(),
    {
        self.jump_to_with_range(p, i, None)
    }

    /// The same state with the line-number gutter switched.
    pub closed spec fn spec_toggle_line_numbers(self) -> Self {
        PageScrollState { show_line_numbers: !self.show_line_numbers, ..self }
    }

    /// Switches the line-number gutter.
    pub fn toggle_line_numbers(&mut self)
        ensures
            *final(self) == old(self).spec_toggle_line_numbers(),
            final(self).spec_show_line_numbers() == !old(self).spec_show_line_numbers(),
            final(self).spec_search() == old(self).spec_search(),
            final(self).spec_filter() == old(self).spec_filter(),
            final(self).spec_matches() == old(self).spec_matches(),
            final(self).spec_cursor() == old(self).spec_cursor(),
            final(self).spec_auto_scroll() == old(self).spec_auto_scroll(),
            final(self).spec_bottom() == old(self).spec_bottom(),
            final(self).spec_skip() == old(self).spec_skip(),
            final(self).spec_width() == old(self).spec_width(),
            final(self).spec_height() == old(self).spec_height(),
    {
        self.show_line_numbers = !self.show_line_numbers;
    }

    /// Switching the gutter twice leaves the view state as it was.
    pub proof fn lemma_toggle_line_numbers_involution(s: PageScrollState)
        ensures
            s.spec_toggle_line_numbers().spec_toggle_line_numbers() == s,
    {
    }

    /// Turning autoscroll off first snapshots the tail into the manual
    /// anchor; with no resident line it stays on.  Turning it on keeps
    /// the anchor fields as they were.
    pub fn toggle_autoscroll(&mut self, p: &Pages)
        requires
            p.wf(),
            old(self).inv(*p),
        ensures
            final(self).inv(*p),
            *final(self) == (if old(self).spec_auto_scroll() {
                if p.spec_lines_count() > p.spec_first_index() {
                    old(self).anchor_tail(*p)
                } else {
                    *old(self)
                }
            } else {
                old(self).with_auto(true)
            }),
            final(self).spec_search() == old(self).spec_search(),
            final(self).spec_filter() == old(self).spec_filter(),
            final(self).spec_matches() == old(self).spec_matches(),
            final(self).spec_width() == old(self).spec_width(),
            final(self).spec_height() == old(self).spec_height(),
            final(self).spec_show_line_numbers() == old(self).spec_show_line_numbers(),
    {
        let total = p.lines_count();
        let first = p.first_index();
        if self.auto_scroll {
            if total > first {
                self.auto_scroll = false;
                self.bottom_line_idx = total - 1;
                self.bottom_line_wrapped_skip = 0;
            }
        } else {
            self.auto_scroll = true;
        }
    }

    /// Updates the viewport size; the anchor is preserved by index and
    /// skip, with the skip clamped to the anchor line's new wrap count.
    pub fn set_size(&mut self, p: &Pages, w: usize, h: usize)
        requires
            p.wf(),
            old(self).inv(*p),
        ensures
            final(self).inv(*p),
            final(self).spec_width() == w,
            final(self).spec_height() == h,
            final(self).spec_auto_scroll() == old(self).spec_auto_scroll(),
            final(self).spec_bottom() == old(self).spec_bottom(),
            final(self).spec_cursor() == old(self).spec_cursor(),
            final(self).spec_filter() == old(self).spec_filter(),
            final(self).spec_search() == old(self).spec_search(),
            final(self).spec_show_line_numbers() == old(self).spec_show_line_numbers(),
            final(self).spec_matches() == old(self).spec_matches(),
            final(self).spec_skip() == (if !old(self).spec_auto_scroll() && old(self).spec_skip()
                >= final(self).wc(*p, old(self).spec_bottom() as int) {
                (final(self).wc(*p, old(self).spec_bottom() as int) - 1) as nat
            } else {
                old(self).spec_skip()
            }),
    {
        self.width = w;
        self.height = h;
        if !self.auto_scroll {
            let wcb = self.line_wc(p, self.bottom_line_idx);
            if self.bottom_line_wrapped_skip >= wcb {
                self.bottom_line_wrapped_skip = wcb - 1;
            }
        }
    }

    /// Sets or clears the filter query.
    pub fn set_filter(&mut self, q: Option<Command>)
        ensures
            final(self).spec_filter() == q,
            final(self).spec_search() == old(self).spec_search(),
            final(self).spec_auto_scroll() == old(self).spec_auto_scroll(),
            final(self).spec_bottom() == old(self).spec_bottom(),
            final(self).spec_skip() == old(self).spec_skip(),
            final(self).spec_cursor() == old(self).spec_cursor(),
            final(self).spec_matches() == old(self).spec_matches(),
            final(self).spec_width() == old(self).spec_width(),
            final(self).spec_height() == old(self).spec_height(),
            final(self).spec_show_line_numbers() == old(self).spec_show_line_numbers(),
    {
        self.filter = q;
    }

    /// Sets or clears the search query that drives the match index.
    pub fn set_search_query(&mut self, q: Option<Command>)
        ensures
            final(self).spec_search() == q,
            final(self).spec_filter() == old(self).spec_filter(),
            final(self).spec_auto_scroll() == old(self).spec_auto_scroll(),
            final(self).spec_bottom() == old(self).spec_bottom(),
            final(self).spec_skip() == old(self).spec_skip(),
            final(self).spec_cursor() == old(self).spec_cursor(),
            final(self).spec_matches() == old(self).spec_matches(),
    {
        self.search_query = q;
    }

    /// Places or clears the cursor; a placed cursor must be resident.
    pub fn set_cursor(&mut self, p: &Pages, c: Option<usize>)
        requires
            p.wf(),
            old(self).inv(*p),
            match c {
                Some(ci) => p.resident(ci as int),
                None => true,
            },
        ensures
            final(self).inv(*p),
            *final(self) == old(self).with_cursor(c, match c {
                Some(_) => old(self).spec_cursor_range(),
                None => None,
            }),
            final(self).spec_cursor() == c,
            final(self).spec_search() == old(self).spec_search(),
            final(self).spec_filter() == old(self).spec_filter(),
            final(self).spec_matches() == old(self).spec_matches(),
            final(self).spec_width() == old(self).spec_width(),
            final(self).spec_height() == old(self).spec_height(),
            final(self).spec_show_line_numbers() == old(self).spec_show_line_numbers(),
            final(self).spec_auto_scroll() == old(self).spec_auto_scroll(),
            final(self).spec_bottom() == old(self).spec_bottom(),
            final(self).spec_skip() == old(self).spec_skip(),
    {
        self.cursor_idx = c;
        if c.is_none() {
            self.cursor_range = None;
        }
    }

    /// Replaces the match index with freshly computed entries.
    pub fn set_matches(&mut self, entries: Vec<usize>)
        requires
            forall|k1: int, k2: int|
                0 <= k1 < k2 < entries@.len() ==> entries@[k1] < entries@[k2],
        ensures
            final(self).spec_matches().entries_seq() == entries@,
            final(self).spec_matches().sorted(),
            final(self).spec_filter() == old(self).spec_filter(),
            final(self).spec_search() == old(self).spec_search(),
            final(self).spec_auto_scroll() == old(self).spec_auto_scroll(),
            final(self).spec_bottom() == old(self).spec_bottom(),
            final(self).spec_skip() == old(self).spec_skip(),
            final(self).spec_cursor() == old(self).spec_cursor(),
    {
        self.matches.set_entries(entries);
    }

    /// Records that the freshly appended line at `i` matches the query.
    pub fn add_match(&mut self, i: usize)
        requires
            old(self).spec_matches().sorted(),
            forall|k: int|
                0 <= k < old(self).spec_matches().entries_seq().len() ==> old(
                    self,
                ).spec_matches().entries_seq()[k] < i,
        ensures
            final(self).spec_matches().sorted(),
            final(self).spec_matches().entries_seq() == old(
                self,
            ).spec_matches().entries_seq().push(i),
            forall|j: usize|
                final(self).spec_matches().contains_idx(j) <==> (old(
                    self,
                ).spec_matches().contains_idx(j) || j == i),
            final(self).spec_filter() == old(self).spec_filter(),
            final(self).spec_search() == old(self).spec_search(),
            final(self).spec_auto_scroll() == old(self).spec_auto_scroll(),
            final(self).spec_bottom() == old(self).spec_bottom(),
            final(self).spec_skip() == old(self).spec_skip(),
            final(self).spec_cursor() == old(self).spec_cursor(),
    {
        self.matches.on_append(i);
    }

    /// Drops match entries that fell out of residency.
    pub fn remove_matches_before(&mut self, new_first: usize)
        requires
            old(self).spec_matches().sorted(),
        ensures
            final(self).spec_matches().sorted(),
            forall|j: usize|
                final(self).spec_matches().contains_idx(j) <==> (old(
                    self,
                ).spec_matches().contains_idx(j) && j >= new_first),
            final(self).spec_filter() == old(self).spec_filter(),
            final(self).spec_search() == old(self).spec_search(),
            final(self).spec_auto_scroll() == old(self).spec_auto_scroll(),
            final(self).spec_bottom() == old(self).spec_bottom(),
            final(self).spec_skip() == old(self).spec_skip(),
            final(self).spec_cursor() == old(self).spec_cursor(),
    {
        self.matches.on_evict(new_first);
    }

    /// The active search query, read-only.
    pub fn search_query_ref(&self) -> (r: &Option<Command>)
        ensures
            r == self.spec_search(),
    {
        &self.search_query
    }

    /// The held match index, read-only.
    pub fn matches(&self) -> (r: &MatchIndex)
        ensures
            r == self.spec_matches(),
    {
        &self.matches
    }
}

} // verus!

verus! {

impl PageScrollState {
    /// Lines that the filter hides add no rendered sub-lines.
    proof fn lemma_sum_wc_blocked(self, p: Pages, a: int, b: int)
        requires
            a <= b,
            forall|m: int| a <= m < b ==> !self.line_ok(p, m),
        ensures
            self.sum_wc(p, a) == self.sum_wc(p, b),
        decreases b - a,
    {
        if a < b {
            self.lemma_sum_wc_blocked(p, a, b - 1);
        }
    }

    /// Between two neighbouring filter-passing lines, the earlier one is
    /// the previous passing line of the later one.
    proof fn lemma_prev_ok_finds(self, p: Pages, b: int, j: int)
        requires
            p.spec_first_index() <= b < j,
            self.line_ok(p, b),
            forall|m: int| b < m < j ==> !self.line_ok(p, m),
        ensures
            self.prev_ok_line(p, j) == Some(b),
        decreases j - b,
    {
        if j > b + 1 {
            self.lemma_prev_ok_finds(p, b, j - 1);
        }
    }

    /// States that share filter and wrap width count sub-lines alike.
    proof fn lemma_sum_wc_agree(self, s2: Self, p: Pages, i: int)
        requires
            self.spec_filter() == s2.spec_filter(),
            self.eff_width() == s2.eff_width(),
        ensures
            self.sum_wc(p, i) == s2.sum_wc(p, i),
        decreases i,
    {
        if i > p.spec_first_index() {
            self.lemma_sum_wc_agree(s2, p, i - 1);
        }
    }

    /// States that share the filter find the same previous passing line.
    proof fn lemma_prev_ok_agree(self, s2: Self, p: Pages, i: int)
        requires
            self.spec_filter() == s2.spec_filter(),
        ensures
            self.prev_ok_line(p, i) == s2.prev_ok_line(p, i),
        decreases i,
    {
        if i > p.spec_first_index() {
            self.lemma_prev_ok_agree(s2, p, i - 1);
        }
    }

    /// The view can move down one rendered sub-line and back: the
    /// anchor line passes the filter, the viewport is full, and the step
    /// either stays within the anchor line's sub-lines or crosses to a
    /// next passing line that occupies a single sub-line and is not the
    /// last line.
    pub open spec fn can_step_down(self, p: Pages) -> bool {
        &&& !self.spec_auto_scroll()
        &&& p.spec_first_index() <= self.spec_bottom() < p.spec_lines_count()
        &&& self.line_ok(p, self.spec_bottom() as int)
        &&& !self.spec_top_reached(p)
        &&& self.spec_skip() < self.wc(p, self.spec_bottom() as int)
        &&& (self.spec_skip() == 0 ==> (match self.next_ok_line(
            p,
            self.spec_bottom() as int,
        ) {
            Some(j) => j < p.spec_lines_count() - 1 && self.wc(p, j) == 1,
            None => false,
        }))
    }

    /// One step down followed by one step up restores the view exactly.
    pub proof fn lemma_down_up(self, p: Pages)
        requires
            self.can_step_down(p),
            p.spec_lines_count() <= usize::MAX,
        ensures
            self.spec_scroll_down(p).spec_scroll_up(p) == self,
    {
        let b = self.spec_bottom() as int;
        let skip = self.spec_skip();
        if skip > 0 {
            let d = self.with_anchor(b as nat, (skip - 1) as nat);
            self.lemma_sum_wc_agree(d, p, b);
            assert(d.own_rows(p, b, (skip - 1) as nat) == self.own_rows(p, b, skip) + 1);
            assert(!d.spec_top_reached(p));
            let u = d.with_anchor(b as nat, skip);
            assert(u == self);
            assert(d.spec_scroll_up(p) == u.spec_normalize(p));
        } else {
            let j = self.next_ok_line(p, b)->Some_0;
            self.lemma_next_ok_props(p, b);
            let d0 = self.with_anchor(j as nat, 0);
            assert(self.spec_scroll_down(p) == d0);
            // the rows of the span (b, j) contribute nothing
            self.lemma_sum_wc_blocked(p, b + 1, j);
            self.lemma_sum_wc_agree(d0, p, j);
            self.lemma_prev_ok_agree(d0, p, j);
            assert(d0.sum_wc(p, j) == self.sum_wc(p, j));
            assert(self.sum_wc(p, b + 1) == self.sum_wc(p, b) + self.wc(p, b));
            assert(d0.own_rows(p, j, 0) == 1);
            assert(d0.visible_from(p, j, 0) == 1 + self.visible_from(p, b, skip));
            assert(!d0.spec_top_reached(p));
            assert(!(d0.spec_skip() + 1 < d0.wc(p, j)));
            self.lemma_prev_ok_finds(p, b, j);
            assert(d0.prev_ok_line(p, j) == Some(b));
            let u = d0.with_anchor(b as nat, 0);
            assert(u == self);
            assert(d0.spec_scroll_up(p) == u.spec_normalize(p));
        }
    }

    /// The state after `k` steps down.
    pub closed spec fn iterate_down(self, p: Pages, k: nat) -> Self
        decreases k,
    {
        if k == 0 {
            self
        } else {
            self.spec_scroll_down(p).iterate_down(p, (k - 1) as nat)
        }
    }

    /// The state after `k` steps up, applied after whatever `self`
    /// already is.
    pub closed spec fn iterate_up(self, p: Pages, k: nat) -> Self
        decreases k,
    {
        if k == 0 {
            self
        } else {
            self.iterate_up(p, (k - 1) as nat).spec_scroll_up(p)
        }
    }

    /// Every one of the next `k` steps down can be stepped back.
    pub open spec fn can_step_down_k(self, p: Pages, k: nat) -> bool
        decreases k,
    {
        k == 0 || (self.can_step_down(p) && self.spec_scroll_down(p).can_step_down_k(
            p,
            (k - 1) as nat,
        ))
    }

    /// Scrolling down `k` sub-lines and back up `k` sub-lines restores
    /// the anchor exactly, as after a jump, provided no line was
    /// appended or evicted meanwhile and neither end of the content was
    /// reached along the way.
    pub proof fn lemma_scroll_round_trip(self, p: Pages, k: nat)
        requires
            self.can_step_down_k(p, k),
            p.spec_lines_count() <= usize::MAX,
        ensures
            self.iterate_down(p, k).iterate_up(p, k) == self,
        decreases k,
    {
        if k > 0 {
            let d = self.spec_scroll_down(p);
            d.lemma_scroll_round_trip(p, (k - 1) as nat);
            let y = self.iterate_down(p, k);
            assert(y == d.iterate_down(p, (k - 1) as nat));
            assert(y.iterate_up(p, (k - 1) as nat) == d);
            assert(y.iterate_up(p, k) == y.iterate_up(p, (k - 1) as nat).spec_scroll_up(p));
            self.lemma_down_up(p);
        }
    }
}

} // verus!

verus! {

impl PageScrollState {
    /// The wrap width the renderer actually has: zero when the gutter
    /// leaves no cell.
    pub open spec fn raw_eff_width(&self) -> nat {
        if self.spec_show_line_numbers() {
            if self.spec_width() >= 6 {
                (self.spec_width() - 6) as nat
            } else {
                0
            }
        } else {
            self.spec_width()
        }
    }

    /// The byte range highlighted on line `li`: the search query's
    /// match when a search is active, else the filter's.
    pub open spec fn row_match_range(&self, p: Pages, li: int) -> Option<(usize, usize)> {
        match self.spec_search() {
            Some(q) => command_match(q, p.history()[li]),
            None => match self.spec_filter() {
                Some(f) => command_match(f, p.history()[li]),
                None => None,
            },
        }
    }

    /// The highlight of one sub-line: the current hit's overlap on the
    /// cursor line, else the located match's overlap, else cursor
    /// emphasis over the whole sub-line, else nothing.  Empty overlaps
    /// paint nothing.
    pub open spec fn spec_row_highlight(&self, p: Pages, li: int, sub: (usize, usize)) -> Option<
        (usize, usize, HighlightKind),
    > {
        let cursor_here = self.spec_cursor() == Some(li as usize);
        let hit = if cursor_here {
            match self.spec_cursor_range() {
                Some(cr) => range_inter(cr, sub),
                None => None,
            }
        } else {
            None
        };
        match hit {
            Some(h) => Some((h.0, h.1, HighlightKind::CurrentHit)),
            None => {
                let m = match self.row_match_range(p, li) {
                    Some(mr) => range_inter(mr, sub),
                    None => None,
                };
                match m {
                    Some(mm) => Some((mm.0, mm.1, HighlightKind::SearchMatch)),
                    None => if cursor_here {
                        Some((sub.0, sub.1, HighlightKind::CursorLine))
                    } else {
                        None
                    },
                }
            },
        }
    }

    /// The row belongs to a resident filter-passing line, covers one of
    /// its wrapped sub-line ranges, and carries the exact highlight.
    pub open spec fn row_ok(&self, p: Pages, row: LineWithIdx) -> bool {
        &&& p.resident(row.idx as int)
        &&& self.line_ok(p, row.idx as int)
        &&& exists|k: int|
            0 <= k < spec_wrap(p.history()[row.idx as int], self.eff_width()).len()
                && (#[trigger] spec_wrap(p.history()[row.idx as int], self.eff_width())[k]) == (
            row.start,
            row.end,
            )
        &&& row.highlight == self.spec_row_highlight(p, row.idx as int, (row.start, row.end))
    }

    fn inter_exec(a: (usize, usize), b: (usize, usize)) -> (r: Option<(usize, usize)>)
        ensures
            r == range_inter(a, b),
    {
        let lo = if a.0 >= b.0 {
            a.0
        } else {
            b.0
        };
        let hi = if a.1 <= b.1 {
            a.1
        } else {
            b.1
        };
        if lo < hi {
            Some((lo, hi))
        } else {
            None
        }
    }

    fn row_highlight(&self, p: &Pages, li: usize, line: &[u8], sub: (usize, usize)) -> (r: Option<
        (usize, usize, HighlightKind),
    >)
        requires
            p.wf(),
            p.resident(li as int),
            line@ == p.history()[li as int],
        ensures
            r == self.spec_row_highlight(*p, li as int, sub),
    {
        let cursor_here = match self.cursor_idx {
            Some(ci) => ci == li,
            None => false,
        };
        if cursor_here {
            if let Some(cr) = self.cursor_range {
                if let Some(h) = Self::inter_exec(cr, sub) {
                    return Some((h.0, h.1, HighlightKind::CurrentHit));
                }
            }
        }
        let mr: Option<(usize, usize)> = match &self.search_query {
            Some(q) => q.is_match(line),
            None => match &self.filter {
                Some(f) => f.is_match(line),
                None => None,
            },
        };
        if let Some(m) = mr {
            if let Some(mm) = Self::inter_exec(m, sub) {
                return Some((mm.0, mm.1, HighlightKind::SearchMatch));
            }
        }
        if cursor_here {
            return Some((sub.0, sub.1, HighlightKind::CursorLine));
        }
        None
    }

    /// The bottom row the walk starts from: the anchor line's sub-line
    /// after the skip when that line passes the filter and has one left,
    /// else the last sub-line of the nearest passing line above the
    /// anchor.
    #[verifier::opaque]
    pub open spec fn bottom_row_ok(&self, p: Pages, ab: int, askip: nat, row: LineWithIdx) -> bool {
        if self.line_ok(p, ab) && askip < self.wc(p, ab) {
            &&& row.idx == ab
            &&& (row.start, row.end) == spec_wrap(p.history()[ab], self.eff_width())[
                self.wc(p, ab) - 1 - askip
            ]
        } else {
            match self.prev_ok_line(p, ab) {
                Some(j) => row.idx == j && row.end == p.history()[j].len(),
                None => false,
            }
        }
    }

    /// Consecutive rows walk the wrapped sub-lines upward: while a row
    /// does not start its line, the next row covers the bytes just
    /// before it on the same line; at a line's first sub-line the walk
    /// continues with the last sub-line of the nearest passing line
    /// above.
    #[verifier::opaque]
    pub open spec fn rows_chained(&self, p: Pages, rows: Seq<LineWithIdx>) -> bool {
        forall|k: int|
            0 <= k < rows.len() - 1 ==> {
                let a = #[trigger] rows[k];
                let b = rows[k + 1];
                if a.start > 0 {
                    b.idx == a.idx && b.end == a.start
                } else {
                    &&& self.prev_ok_line(p, a.idx as int) == Some(b.idx as int)
                    &&& b.end == p.history()[b.idx as int].len()
                }
            }
    }

    /// The rows the viewport shows, bottom row first.
    ///
    /// Nothing is rendered when the viewport has no rows, the gutter
    /// leaves no cell, or no line is resident.  Every returned row is a
    /// wrapped sub-line of a resident, filter-passing line with its
    /// exact highlight; rows never outnumber the viewport height; and
    /// under autoscroll the bottom row belongs to the last resident
    /// filter-passing line.
    #[verifier::rlimit(100)]
    pub fn get_visible_rows(&self, p: &Pages) -> (r: Vec<LineWithIdx>)
        requires
            p.wf(),
            self.inv(*p),
        ensures
            (self.spec_height() == 0 || self.raw_eff_width() == 0 || p.spec_lines_count()
                <= p.spec_first_index()) ==> r@.len() == 0,
            r@.len() <= self.spec_height(),
            forall|k: int| 0 <= k < r@.len() ==> self.row_ok(*p, #[trigger] r@[k]),
            forall|k1: int, k2: int| 0 <= k1 < k2 < r@.len() ==> r@[k1].idx >= r@[k2].idx,
            (self.spec_height() > 0 && self.raw_eff_width() > 0 && self.spec_auto_scroll()
                && p.spec_lines_count() > p.spec_first_index() && self.last_ok_line(*p) is Some)
                ==> r@.len() > 0 && r@[0].idx == self.last_ok_line(*p)->Some_0,
            (self.spec_height() > 0 && self.raw_eff_width() > 0 && p.spec_lines_count()
                > p.spec_first_index()) ==> ({
                let eff_ab: int = if self.spec_auto_scroll() {
                    p.spec_lines_count() - 1
                } else {
                    self.spec_bottom() as int
                };
                let eff_skip: nat = if self.spec_auto_scroll() {
                    0nat
                } else {
                    self.spec_skip()
                };
                let avail = self.visible_from(*p, eff_ab, eff_skip);
                r@.len() == (if avail >= self.spec_height() {
                    self.spec_height() as int
                } else {
                    avail as int
                })
            }),
            self.rows_chained(*p, r@),
            r@.len() > 0 ==> ({
                let eff_ab: int = if self.spec_auto_scroll() {
                    p.spec_lines_count() - 1
                } else {
                    self.spec_bottom() as int
                };
                let eff_skip: nat = if self.spec_auto_scroll() {
                    0nat
                } else {
                    self.spec_skip()
                };
                self.bottom_row_ok(*p, eff_ab, eff_skip, r@[0])
            }),
    {
        let mut rows: Vec<LineWithIdx> = Vec::new();
        let total = p.lines_count();
        let first = p.first_index();
        let raw_w = if self.show_line_numbers {
            if self.width >= 6 {
                self.width - 6
            } else {
                0
            }
        } else {
            self.width
        };
        if self.height == 0 || raw_w == 0 || total <= first {
            proof {
                reveal(PageScrollState::rows_chained);
            }
            return rows;
        }
        let (ab, askip): (usize, usize) = if self.auto_scroll {
            (total - 1, 0)
        } else {
            (self.bottom_line_idx, self.bottom_line_wrapped_skip)
        };
        proof {
            if self.spec_auto_scroll() {
                assert(self.prev_ok_line(*p, total as int) == self.last_ok_line(*p));
            }
        }
        let mut cur = ab;
        let mut is_first_line = true;
        let ghost mut first_emitted: Option<usize> = None;
        proof {
            reveal(PageScrollState::rows_chained);
            assert(self.rows_chained(*p, rows@));
        }
        loop
            invariant
                p.wf(),
                self.inv(*p),
                total == p.spec_lines_count(),
                first == p.spec_first_index(),
                first <= cur < total,
                first <= ab < total,
                cur <= ab,
                self.spec_height() > 0,
                self.spec_auto_scroll() ==> ab + 1 == total && askip == 0,
                !self.spec_auto_scroll() ==> ab == self.spec_bottom() && askip
                    == self.spec_skip(),
                self.raw_eff_width() > 0,
                rows@.len() < self.spec_height(),
                forall|k: int| 0 <= k < rows@.len() ==> self.row_ok(*p, #[trigger] rows@[k]),
                forall|k1: int, k2: int|
                    0 <= k1 < k2 < rows@.len() ==> rows@[k1].idx >= rows@[k2].idx,
                forall|k: int| 0 <= k < rows@.len() ==> rows@[k].idx >= cur,
                first_emitted matches Some(fe) ==> rows@.len() > 0 && rows@[0].idx == fe,
                first_emitted is None ==> rows@.len() == 0,
                is_first_line ==> cur == ab && rows@.len() == 0,
                self.spec_auto_scroll() ==> (match first_emitted {
                    Some(fe) => Some(fe as int) == self.prev_ok_line(*p, ab + 1),
                    None => self.prev_ok_line(*p, ab + 1) == self.prev_ok_line(*p, cur + 1),
                }),
                rows@.len() == self.visible_from(*p, ab as int, askip as nat) - self.sum_wc(
                    *p,
                    cur as int,
                ) - self.own_rows(*p, cur as int, (if is_first_line {
                    askip as nat
                } else {
                    0nat
                })),
                self.rows_chained(*p, rows@),
                rows@.len() > 0 ==> self.bottom_row_ok(*p, ab as int, askip as nat, rows@[0]),
                rows@.len() > 0 ==> rows@.last().start == 0 && self.prev_ok_line(
                    *p,
                    rows@.last().idx as int,
                ) == Some(cur as int),
                first_emitted is None ==> cur == ab || (!(self.line_ok(*p, ab as int) && askip
                    < self.wc(*p, ab as int)) && Some(cur as int) == self.prev_ok_line(
                    *p,
                    ab as int,
                )),
            decreases cur,
        {
            let ghost rows_before = rows@.len();
            let ok_here = self.check_line_ok(p, cur);
            if ok_here {
                proof {
                    if self.spec_auto_scroll() && first_emitted is None {
                        assert(self.prev_ok_line(*p, cur + 1) == Some(cur as int));
                    }
                }
                let line = match p.get_line(cur) {
                    Some(l) => l,
                    None => vstd::pervasive::unreached(),
                };
                let ln = line.len();
                proof {
                    assert(line@.len() == ln);
                    crate::wrap::lemma_wrap_count_pos(line@, self.eff_width());
                }
                let subs = wrap_line(line, self.eff_width_exec());
                let skip_here: usize = if is_first_line {
                    askip
                } else {
                    0
                };
                let upper: usize = if skip_here >= subs.len() {
                    0
                } else {
                    subs.len() - skip_here
                };
                proof {
                    crate::wrap::lemma_wrap_covers(line@, self.eff_width());
                    if line@.len() == 0 {
                        assert(subs@.len() == 1);
                    }
                    assert(subs@.len() == self.wc(*p, cur as int));
                    assert(upper == self.own_rows(*p, cur as int, (if is_first_line {
                        askip as nat
                    } else {
                        0nat
                    })));
                }
                let mut i: usize = upper;
                while i > 0 && rows.len() < self.height
                    invariant
                        p.wf(),
                        p.resident(cur as int),
                        self.line_ok(*p, cur as int),
                        line@ == p.history()[cur as int],
                        subs@ == spec_wrap(p.history()[cur as int], self.eff_width()),
                        upper <= subs@.len(),
                        i <= upper,
                        rows@.len() <= self.spec_height(),
                        forall|k: int| 0 <= k < rows@.len() ==> self.row_ok(*p, #[trigger] rows@[k]),
                        forall|k1: int, k2: int|
                            0 <= k1 < k2 < rows@.len() ==> rows@[k1].idx >= rows@[k2].idx,
                        forall|k: int| 0 <= k < rows@.len() ==> rows@[k].idx >= cur,
                        first_emitted matches Some(fe) ==> rows@.len() > 0 && rows@[0].idx == fe,
                        first_emitted is None ==> rows@.len() == 0,
                        i < upper ==> rows@.len() > 0,
                        self.spec_auto_scroll() ==> (match first_emitted {
                            Some(fe) => Some(fe as int) == self.prev_ok_line(*p, ab + 1),
                            None => self.prev_ok_line(*p, ab + 1) == Some(cur as int),
                        }),
                        rows@.len() == rows_before + (upper - i),
                        rows_before + upper == self.visible_from(*p, ab as int, askip as nat)
                            - self.sum_wc(*p, cur as int),
                        rows_before < self.spec_height(),
                        subs@.len() >= 1,
                        subs@[0].0 == 0,
                        subs@.last().1 == p.history()[cur as int].len(),
                        forall|m: int|
                            0 <= m < subs@.len() - 1 ==> (#[trigger] subs@[m]).1 == subs@[m + 1].0,
                        p.history()[cur as int].len() > 0 ==> forall|m: int|
                            0 <= m < subs@.len() ==> (#[trigger] subs@[m]).0 < subs@[m].1,
                        subs@.len() >= 2 ==> p.history()[cur as int].len() > 0,
                        upper > 0 ==> upper == subs@.len() - skip_here && skip_here
                            < subs@.len(),
                        is_first_line ==> cur == ab && skip_here == askip,
                        !is_first_line ==> skip_here == 0,
                        self.rows_chained(*p, rows@),
                        rows@.len() > 0 ==> self.bottom_row_ok(
                            *p,
                            ab as int,
                            askip as nat,
                            rows@[0],
                        ),
                        rows@.len() > rows_before ==> rows@.last().idx == cur && rows@.last().start
                            == subs@[i as int].0 && rows@.last().end == subs@[i as int].1,
                        rows@.len() == rows_before && rows@.len() > 0 ==> rows@.last().start == 0
                            && self.prev_ok_line(*p, rows@.last().idx as int) == Some(cur as int),
                        rows@.len() == 0 ==> (cur == ab && skip_here == askip) || (!(self.line_ok(
                            *p,
                            ab as int,
                        ) && askip < self.wc(*p, ab as int)) && Some(cur as int)
                            == self.prev_ok_line(*p, ab as int)),
                    decreases i,
                {
                    let sub = subs[i - 1];
                    let hl = self.row_highlight(p, cur, line, sub);
                    let ghost old_rows = rows@;
                    proof {
                        if rows@.len() == 0 {
                            first_emitted = Some(cur);
                        }
                    }
                    rows.push(LineWithIdx { idx: cur, start: sub.0, end: sub.1, highlight: hl });
                    proof {
                        reveal(PageScrollState::rows_chained);
                        reveal(PageScrollState::bottom_row_ok);
                        if old_rows.len() == 0 {
                            if cur == ab && skip_here == askip {
                                assert(i == upper);
                                assert(self.bottom_row_ok(*p, ab as int, askip as nat, rows@[0]));
                            } else {
                                assert(skip_here == 0);
                                assert(i == upper && upper == subs@.len());
                                assert(rows@[0].end == p.history()[cur as int].len());
                                assert(self.bottom_row_ok(*p, ab as int, askip as nat, rows@[0]));
                            }
                        }
                        assert forall|k: int| 0 <= k < rows@.len() - 1 implies ({
                            let a = #[trigger] rows@[k];
                            let b = rows@[k + 1];
                            if a.start > 0 {
                                b.idx == a.idx && b.end == a.start
                            } else {
                                &&& self.prev_ok_line(*p, a.idx as int) == Some(b.idx as int)
                                &&& b.end == p.history()[b.idx as int].len()
                            }
                        }) by {
                            if k < old_rows.len() - 1 {
                                assert(rows@[k] == old_rows[k]);
                                assert(rows@[k + 1] == old_rows[k + 1]);
                            } else {
                                assert(rows@[k] == old_rows.last());
                                if old_rows.len() > rows_before {
                                    assert(p.history()[cur as int].len() > 0);
                                    assert(old_rows.last().start == subs@[i as int].0);
                                    assert(subs@[i - 1].1 == subs@[i as int].0);
                                    assert(subs@[i - 1].0 < subs@[i - 1].1);
                                    assert(old_rows.last().start > 0);
                                } else {
                                    assert(old_rows.last().start == 0);
                                    assert(skip_here == 0);
                                    assert(i == upper && upper == subs@.len());
                                    assert(rows@[k + 1].end == p.history()[cur as int].len());
                                }
                            }
                        }
                        assert(self.rows_chained(*p, rows@));
                    }
                    i -= 1;
                }
                proof {
                    if self.spec_auto_scroll() {
                        assert(upper >= 1);
                        assert(rows@.len() > 0);
                    }
                    if first_emitted is None {
                        assert(upper == 0);
                        assert(is_first_line);
                        assert(askip >= self.wc(*p, cur as int));
                    }
                }
                proof {
                    if rows.len() < self.height {
                        assert(i == 0);
                        assert(rows@.len() == rows_before + upper);
                        if upper > 0 {
                            assert(rows@.last().idx == cur && rows@.last().start == subs@[0].0);
                            assert(rows@.last().start == 0);
                        }
                    }
                }
                if rows.len() >= self.height {
                    proof {
                        assert(self.visible_from(*p, ab as int, askip as nat)
                            >= self.spec_height());
                    }
                    return rows;
                }
            }
            proof {
                assert(rows@.len() == self.visible_from(*p, ab as int, askip as nat)
                    - self.sum_wc(*p, cur as int));
            }
            match self.find_prev_ok(p, cur) {
                Some(j) => {
                    proof {
                        self.lemma_prev_ok_props(*p, cur as int);
                        if self.spec_auto_scroll() && first_emitted is None {
                            assert(self.prev_ok_line(*p, cur + 1) == self.prev_ok_line(
                                *p,
                                cur as int,
                            ));
                        }
                        self.lemma_sum_wc_blocked(*p, j + 1, cur as int);
                        assert(self.sum_wc(*p, j + 1) == self.sum_wc(*p, j as int) + self.wc(
                            *p,
                            j as int,
                        ));
                        assert(self.own_rows(*p, j as int, 0nat) == self.wc(*p, j as int));
                        if rows@.len() > 0 {
                            if !ok_here {
                                self.lemma_prev_ok_props(*p, rows@.last().idx as int);
                                assert(false);
                            }
                            assert(rows@.last().start == 0 && rows@.last().idx == cur);
                            assert(self.prev_ok_line(*p, rows@.last().idx as int) == Some(
                                j as int,
                            ));
                        }
                        if first_emitted is None {
                            if cur != ab {
                                self.lemma_prev_ok_props(*p, ab as int);
                                assert(self.line_ok(*p, cur as int));
                                assert(false);
                            }
                            assert(!(self.line_ok(*p, ab as int) && askip < self.wc(
                                *p,
                                ab as int,
                            )));
                        }
                    }
                    cur = j;
                    is_first_line = false;
                },
                None => {
                    proof {
                        self.lemma_prev_ok_props(*p, cur as int);
                        if self.spec_auto_scroll() && first_emitted is None {
                            assert(self.prev_ok_line(*p, cur + 1) == self.prev_ok_line(
                                *p,
                                cur as int,
                            ));
                        }
                        self.lemma_sum_wc_blocked(*p, first as int, cur as int);
                        assert(self.sum_wc(*p, first as int) == 0);
                        assert(rows@.len() == self.visible_from(*p, ab as int, askip as nat));
                    }
                    return rows;
                },
            }
        }
    }

}

} // verus!

verus! {

impl PageScrollState {
    /// `normalize` moves only the anchor: autoscroll, cursor and range
    /// come through unchanged.
    pub proof fn lemma_normalize_frame(self, p: Pages)
        requires
            p.spec_lines_count() <= usize::MAX,
        ensures
            self.spec_normalize(p).spec_cursor() == self.spec_cursor(),
            self.spec_normalize(p).spec_cursor_range() == self.spec_cursor_range(),
            self.spec_normalize(p).spec_auto_scroll() == self.spec_auto_scroll(),
        decreases p.spec_lines_count() - self.spec_bottom(),
    {
        self.lemma_next_ok_props(p, self.spec_bottom() as int);
        if self.spec_top_reached(p) {
            match self.next_ok_line(p, self.spec_bottom() as int) {
                Some(j) => {
                    let s2 = self.with_anchor(j as nat, 0);
                    assert(s2.spec_bottom() == j);
                    s2.lemma_normalize_frame(p);
                },
                None => {},
            }
        }
    }

    /// A jump outside the resident range leaves the state exactly as it
    /// was.
    pub proof fn lemma_jump_out_of_range(self, p: Pages, i: nat, r: Option<(usize, usize)>)
        requires
            !(p.spec_first_index() <= i < p.spec_lines_count()),
        ensures
            self.spec_jump(p, i, r) == self,
    {
    }

    /// A jump inside the resident range lands the cursor on the target
    /// with the given range and leaves autoscroll off.
    pub proof fn lemma_jump_in_range(self, p: Pages, i: nat, r: Option<(usize, usize)>)
        requires
            p.spec_first_index() <= i < p.spec_lines_count(),
            p.spec_lines_count() <= usize::MAX,
        ensures
            !self.spec_jump(p, i, r).spec_auto_scroll(),
            self.spec_jump(p, i, r).spec_cursor() == Some(i as usize),
            self.spec_jump(p, i, r).spec_cursor_range() == r,
    {
        let s1 = if self.spec_auto_scroll() {
            self.anchor_tail(p)
        } else {
            self.with_auto(false)
        };
        let s2 = if !s1.is_visible(p, i as int) {
            s1.with_anchor(i, 0)
        } else {
            s1
        };
        let s3 = s2.with_cursor(Some(i as usize), r);
        s3.lemma_normalize_frame(p);
    }

    /// Scrolling down under autoscroll changes nothing.
    pub proof fn lemma_scroll_down_auto(self, p: Pages)
        requires
            self.spec_auto_scroll(),
        ensures
            self.spec_scroll_down(p) == self,
    {
    }

    /// Maintains the view and the match index right after one line was
    /// appended to the store: an anchor or cursor that fell out of
    /// residency is recovered, stale match entries are dropped, and the
    /// fresh line joins the match index exactly when the active search
    /// query matches it, moving the cursor there under autoscroll.
    pub fn on_append(&mut self, p: &Pages)
        requires
            p.wf(),
            p.spec_first_index() < p.spec_lines_count(),
            old(self).spec_matches().sorted(),
            match old(self).spec_search() {
                Some(q) => {
                    &&& forall|j: usize|
                        old(self).spec_matches().contains_idx(j) ==> j < p.spec_lines_count() - 1
                            && command_match(q, p.history()[j as int]) is Some
                    &&& forall|j: usize|
                        p.spec_first_index() <= j < p.spec_lines_count() - 1 && command_match(
                            q,
                            p.history()[j as int],
                        ) is Some ==> old(self).spec_matches().contains_idx(j)
                },
                None => true,
            },
        ensures
            final(self).inv(*p),
            final(self).spec_search() == old(self).spec_search(),
            final(self).spec_filter() == old(self).spec_filter(),
            match final(self).spec_search() {
                Some(q) => final(self).spec_matches().consistent(*p, q),
                None => forall|j: usize|
                    final(self).spec_matches().contains_idx(j) ==> old(
                        self,
                    ).spec_matches().contains_idx(j),
            },
            old(self).spec_auto_scroll() ==> final(self).spec_auto_scroll(),
            final(self).spec_width() == old(self).spec_width(),
            final(self).spec_height() == old(self).spec_height(),
            final(self).spec_show_line_numbers() == old(self).spec_show_line_numbers(),
            final(self).spec_bottom() == old(self).spec_bottom(),
            final(self).spec_skip() == old(self).spec_skip(),
            final(self).spec_auto_scroll() == (old(self).spec_auto_scroll() || old(
                self,
            ).spec_bottom() < p.spec_first_index() || old(self).spec_bottom()
                >= p.spec_lines_count()),
            ({
                let auto2 = old(self).spec_auto_scroll() || old(self).spec_bottom()
                    < p.spec_first_index() || old(self).spec_bottom() >= p.spec_lines_count();
                let hit = match old(self).spec_search() {
                    Some(q) => command_match(q, p.history()[p.spec_lines_count() - 1]) is Some,
                    None => false,
                };
                let kept = match old(self).spec_cursor() {
                    Some(ci) => if ci < p.spec_first_index() || ci >= p.spec_lines_count() {
                        None
                    } else {
                        Some(ci)
                    },
                    None => None,
                };
                let dropped = old(self).spec_cursor() is Some && kept is None;
                &&& final(self).spec_cursor() == (if hit && auto2 {
                    Some((p.spec_lines_count() - 1) as usize)
                } else {
                    kept
                })
                &&& final(self).spec_cursor_range() == (if dropped {
                    None
                } else {
                    old(self).spec_cursor_range()
                })
            }),
    {
        let total = p.lines_count();
        let first = p.first_index();
        if !self.auto_scroll && (self.bottom_line_idx < first || self.bottom_line_idx >= total) {
            self.auto_scroll = true;
        }
        match self.cursor_idx {
            Some(ci) => {
                if ci < first || ci >= total {
                    self.cursor_idx = None;
                    self.cursor_range = None;
                }
            },
            None => {},
        }
        self.matches.on_evict(first);
        let newest = total - 1;
        let is_search = self.search_query.is_some();
        if is_search {
            let l = match p.get_line(newest) {
                Some(l) => l,
                None => vstd::pervasive::unreached(),
            };
            let hit = match &self.search_query {
                Some(q) => q.is_match(l).is_some(),
                None => false,
            };
            if hit {
                proof {
                    let m = self.spec_matches();
                    assert forall|k: int| 0 <= k < m.entries_seq().len() implies m.entries_seq()[k]
                        < newest by {
                        assert(m.contains_idx(m.entries_seq()[k]));
                        assert(old(self).spec_matches().contains_idx(m.entries_seq()[k]));
                    }
                }
                self.matches.on_append(newest);
                if self.auto_scroll {
                    self.cursor_idx = Some(newest);
                }
            }
        }
        proof {
            match old(self).spec_search() {
                Some(q) => {
                    assert forall|j: usize| final(self).spec_matches().contains_idx(j)
                        <==> p.matches_at(q, j as int) by {}
                },
                None => {},
            }
        }
    }

    /// Applies one instruction, reporting whether the screen must be
    /// painted again.  The report is coarse: a scroll, resize or
    /// successful jump always asks for a repaint, even when the view was
    /// already at its end and did not move.
    pub fn apply_queue(&mut self, p: &Pages, q: InstructionQueue) -> (redraw: bool)
        requires
            p.wf(),
            old(self).inv(*p),
        ensures
            final(self).inv(*p),
            match q {
                InstructionQueue::Idle => *final(self) == *old(self) && !redraw,
                InstructionQueue::Up => *final(self) == old(self).spec_scroll_up(*p) && redraw,
                InstructionQueue::Down => *final(self) == old(self).spec_scroll_down(*p) && redraw,
                InstructionQueue::Resize { width, height } => redraw && final(self).spec_width()
                    == width && final(self).spec_height() == height,
                InstructionQueue::JumpTo(i) => *final(self) == old(self).spec_jump(*p, i as nat, None)
                    && redraw == (p.spec_first_index() <= i < p.spec_lines_count()),
            },
    {
        match q {
            InstructionQueue::Idle => false,
            InstructionQueue::Up => {
                self.scroll_up(p);
                true
            },
            InstructionQueue::Down => {
                self.scroll_down(p);
                true
            },
            InstructionQueue::Resize { width, height } => {
                self.set_size(p, width, height);
                true
            },
            InstructionQueue::JumpTo(i) => self.jump_to(p, i),
        }
    }
}

} // verus!

verus! {

/// A page of lines together with the window of it that is shown.
pub struct PageAndView {
    /// The stored lines.
    pub page: crate::pages::Page,
    /// Half-open range of line positions that the viewport shows.
    pub view: (usize, usize),
}

} // verus!
