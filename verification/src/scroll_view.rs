//! An earlier, simpler scroll view: a plain scroll offset over one page
//! of lines, with a search mode driven by a `/`-prefixed command.

use vstd::prelude::*;

use crate::TuiMode;
use crate::command::find_first;
use crate::command::first_match;
use crate::command::str_bytes;
use crate::pages::Page;
use crate::pages::PageSearchedLine;
use vstd::string::StrSliceExecFns;

verus! {

/// A scroll offset counted in rows from the bottom, and whether the
/// view follows the tail.
pub struct ScrollState {
    scroll_position: usize,
    auto_scroll: bool,
}

impl ScrollState {
    /// The scroll offset.
    pub closed spec fn spec_position(&self) -> nat {
        self.scroll_position as nat
    }

    /// Whether the view follows the tail.
    pub closed spec fn spec_auto_scroll(&self) -> bool {
        self.auto_scroll
    }

    /// A view at the tail.
    pub fn new() -> (r: Self)
        ensures
            r.spec_position() == 0,
            !r.spec_auto_scroll(),
    {
        ScrollState { scroll_position: 0, auto_scroll: false }
    }

    /// Whether the view follows the tail.
    pub fn auto_scroll(&self) -> (r: bool)
        ensures
            r == self.spec_auto_scroll(),
    {
        self.auto_scroll
    }

    /// Moves one row away from the tail and stops following it.
    pub fn go_up(&mut self)
        requires
            old(self).spec_position() < usize::MAX,
        ensures
            final(self).spec_position() == old(self).spec_position() + 1,
            !final(self).spec_auto_scroll(),
    {
        self.scroll_position = self.scroll_position + 1;
        self.set_auto_scroll(false);
    }

    /// Moves one row toward the tail and stops following it.
    pub fn go_down(&mut self)
        ensures
            final(self).spec_position() == (if old(self).spec_position() > 0 {
                (old(self).spec_position() - 1) as nat
            } else {
                0nat
            }),
            !final(self).spec_auto_scroll(),
    {
        if self.scroll_position > 0 {
            self.scroll_position = self.scroll_position - 1;
        }
        self.set_auto_scroll(false);
    }

    /// Sets whether the view follows the tail.
    pub fn set_auto_scroll(&mut self, auto_scroll: bool)
        ensures
            final(self).spec_auto_scroll() == auto_scroll,
            final(self).spec_position() == old(self).spec_position(),
    {
        self.auto_scroll = auto_scroll;
    }

    /// Pushes the offset far past any content, so the next paint clamps
    /// it to the top.
    pub fn set_max_scroll_offset(&mut self)
        ensures
            final(self).spec_position() == 10000000,
            final(self).spec_auto_scroll() == old(self).spec_auto_scroll(),
    {
        self.scroll_position = 10000000;
    }
}

/// A read-only pairing of the application state and its scroll state,
/// from which the rows to paint are computed.
pub struct ScrollView<'a> {
    app_state: &'a AppState,
    scroll_state: &'a ScrollState,
}

impl<'a> ScrollView<'a> {
    /// The paired application state.
    pub closed spec fn app_ref(&self) -> &'a AppState {
        self.app_state
    }

    /// The paired scroll state.
    pub closed spec fn scroll_ref(&self) -> &'a ScrollState {
        self.scroll_state
    }

    /// Pairs an application state with a scroll state.
    pub fn new(state: &'a AppState, scroll_state: &'a ScrollState) -> (r: Self)
        ensures
            r.app_ref() == state,
            r.scroll_ref() == scroll_state,
    {
        Self { app_state: state, scroll_state }
    }
}

/// The application state of the simple view: the stored page, the mode,
/// the typed command, and the positions of the search hits.
pub struct AppState {
    mode: TuiMode,
    command: String,
    page: Page,
    show_line_numbers: bool,
    searched_lines: Vec<PageSearchedLine>,
}

impl AppState {
    /// The interaction mode.
    pub closed spec fn spec_mode(&self) -> TuiMode {
        self.mode
    }

    /// The typed command text.
    pub closed spec fn spec_command(&self) -> Seq<char> {
        self.command@
    }

    /// The stored page.
    pub closed spec fn spec_page(&self) -> Page {
        self.page
    }

    /// The recorded search hits.
    pub closed spec fn spec_searched(&self) -> Seq<PageSearchedLine> {
        self.searched_lines@
    }

    /// A search is active: the command is `/` followed by a needle.
    pub open spec fn spec_in_search_mode(&self) -> bool {
        self.spec_command().len() > 1 && self.spec_command()[0] == '/'
    }

    /// The bytes of the active needle.
    pub open spec fn needle(&self) -> Seq<u8> {
        str_bytes(self.spec_command().skip(1))
    }

    /// A state over `page` in `mode`, with no command typed.
    pub fn new(page: Page, mode: TuiMode) -> (r: Self)
        ensures
            r.spec_mode() == mode,
            r.spec_command() == Seq::<char>::empty(),
            r.spec_page() == page,
            r.spec_searched() == Seq::<PageSearchedLine>::empty(),
    {
        Self {
            mode,
            command: String::new(),
            page,
            show_line_numbers: false,
            searched_lines: Vec::new(),
        }
    }

    /// Sets the interaction mode.
    pub fn set_mode(&mut self, mode: TuiMode)
        ensures
            final(self).spec_mode() == mode,
            final(self).spec_command() == old(self).spec_command(),
            final(self).spec_page() == old(self).spec_page(),
            final(self).spec_searched() == old(self).spec_searched(),
    {
        self.mode = mode;
    }

    /// The interaction mode.
    pub fn get_mode(&self) -> (r: TuiMode)
        ensures
            r == self.spec_mode(),
    {
        self.mode
    }

    /// Replaces the typed command text.
    pub fn set_command(&mut self, s: String)
        ensures
            final(self).spec_command() == s@,
            final(self).spec_mode() == old(self).spec_mode(),
            final(self).spec_page() == old(self).spec_page(),
            final(self).spec_searched() == old(self).spec_searched(),
    {
        self.command = s;
    }

    /// Whether a search is active.
    pub fn is_in_search_mode(&self) -> (r: bool)
        ensures
            r == self.spec_in_search_mode(),
    {
        if self.command.as_str().unicode_len() <= 1 {
            return false;
        }
        self.command.as_str().get_char(0) == '/'
    }

    /// The active needle's text; empty when no search is active.
    pub fn search_str<'a>(&'a self) -> (r: &'a str)
        ensures
            self.spec_in_search_mode() ==> r@ == self.spec_command().skip(1),
            !self.spec_in_search_mode() ==> r@ == Seq::<char>::empty(),
    {
        if self.is_in_search_mode() {
            let n = self.command.as_str().unicode_len();
            let r = self.command.as_str().substring_char(1, n);
            proof {
                assert(r@ =~= self.spec_command().skip(1));
            }
            r
        } else {
            let r = "";
            proof {
                reveal_strlit("");
            }
            r
        }
    }

    /// Appends one line to the page; when a search is active and the
    /// needle occurs in the line, the hit is recorded with the byte
    /// position of its first occurrence.
    pub fn add_line(&mut self, s: &[u8])
        requires
            old(self).spec_page().wf(),
        ensures
            final(self).spec_page().wf(),
            final(self).spec_page().lines() == old(self).spec_page().lines().push(s@),
            final(self).spec_mode() == old(self).spec_mode(),
            final(self).spec_command() == old(self).spec_command(),
            ({
                let hit = first_match(s@, old(self).needle());
                if old(self).spec_in_search_mode() && hit is Some {
                    let before = old(self).spec_searched();
                    let after = final(self).spec_searched();
                    &&& after.len() == before.len() + 1
                    &&& after.take(before.len() as int) == before
                    &&& after.last().spec_index() == old(self).spec_page().line_count()
                    &&& after.last().spec_substr_start() == hit->Some_0
                } else {
                    final(self).spec_searched() == old(self).spec_searched()
                }
            }),
    {
        let index = self.page.add_line(s);
        if self.is_in_search_mode() {
            let needle_owned = {
                let sstr = self.search_str();
                sstr.as_bytes()
            };
            match find_first(s, needle_owned) {
                Some(substr_start) => {
                    self.searched_lines.push(PageSearchedLine::new(index, substr_start));
                },
                None => {},
            }
        }
    }

    /// Line `i` of the page contains the active needle.
    pub open spec fn line_hit(&self, i: int) -> bool {
        first_match(self.spec_page().lines()[i], self.needle()) is Some
    }

    /// Clears the hits and, when a search is active, rescans every line
    /// of the page for the needle, recording first occurrences in line
    /// order.
    pub fn reset_search(&mut self)
        requires
            old(self).spec_page().wf(),
        ensures
            final(self).spec_mode() == old(self).spec_mode(),
            final(self).spec_command() == old(self).spec_command(),
            final(self).spec_page() == old(self).spec_page(),
            !old(self).spec_in_search_mode() ==> final(self).spec_searched() == Seq::<
                PageSearchedLine,
            >::empty(),
            old(self).spec_in_search_mode() ==> {
                &&& forall|k1: int, k2: int|
                    0 <= k1 < k2 < final(self).spec_searched().len() ==> final(self).spec_searched()[k1].spec_index() < final(self).spec_searched()[k2].spec_index()
                &&& forall|k: int|
                    0 <= k < final(self).spec_searched().len() ==> {
                        let e = #[trigger] final(self).spec_searched()[k];
                        &&& e.spec_index() < old(self).spec_page().line_count()
                        &&& old(self).line_hit(e.spec_index() as int)
                        &&& first_match(
                            old(self).spec_page().lines()[e.spec_index() as int],
                            old(self).needle(),
                        ) == Some(e.spec_substr_start() as int)
                    }
                &&& forall|i: int|
                    0 <= i < old(self).spec_page().line_count() && old(self).line_hit(i)
                        ==> exists|k: int|
                        0 <= k < final(self).spec_searched().len() && (#[trigger] final(self).spec_searched()[k]).spec_index() == i
            },
    {
        self.searched_lines = Vec::new();
        if self.is_in_search_mode() {
            let n = self.page.len();
            let needle = {
                let sstr = self.search_str();
                sstr.as_bytes()
            };
            let mut out: Vec<PageSearchedLine> = Vec::new();
            let mut i: usize = 0;
            while i < n
                invariant
                    self.spec_page().wf(),
                    self.spec_page() == old(self).spec_page(),
                    self.spec_command() == old(self).spec_command(),
                    self.spec_in_search_mode(),
                    needle@ == self.needle(),
                    n == self.spec_page().line_count(),
                    i <= n,
                    forall|k1: int, k2: int|
                        0 <= k1 < k2 < out@.len() ==> out@[k1].spec_index()
                            < out@[k2].spec_index(),
                    forall|k: int|
                        0 <= k < out@.len() ==> {
                            let e = #[trigger] out@[k];
                            &&& e.spec_index() < i
                            &&& self.line_hit(e.spec_index() as int)
                            &&& first_match(
                                self.spec_page().lines()[e.spec_index() as int],
                                self.needle(),
                            ) == Some(e.spec_substr_start() as int)
                        },
                    forall|m: int|
                        0 <= m < i && self.line_hit(m) ==> exists|k: int|
                            0 <= k < out@.len() && (#[trigger] out@[k]).spec_index() == m,
                decreases n - i,
            {
                match self.page.get_at(i) {
                    Some(line) => {
                        let ghost old_out = out@;
                        match find_first(line, needle) {
                            Some(substr_start) => {
                                out.push(PageSearchedLine::new(i, substr_start));
                                proof {
                                    assert forall|m: int|
                                        0 <= m < i + 1 && self.line_hit(m) implies exists|k: int|
                                        0 <= k < out@.len() && (#[trigger] out@[k]).spec_index()
                                            == m by {
                                        if m == i {
                                            assert(out@[out@.len() - 1].spec_index() == m);
                                        } else {
                                            let k0 = choose|k0: int|
                                                0 <= k0 < old_out.len() && (#[trigger] old_out[
                                                k0]).spec_index() == m;
                                            assert(out@[k0].spec_index() == m);
                                        }
                                    }
                                }
                            },
                            None => {},
                        }
                    },
                    None => {
                        proof {
                            assert(false);
                        }
                    },
                }
                i += 1;
            }
            proof {
                assert forall|m: int|
                    0 <= m < old(self).spec_page().line_count() && old(self).line_hit(m)
                        implies exists|k: int|
                    0 <= k < out@.len() && (#[trigger] out@[k]).spec_index() == m by {
                    assert(self.line_hit(m) == old(self).line_hit(m));
                }
                assert forall|k: int| 0 <= k < out@.len() implies {
                    let e = #[trigger] out@[k];
                    &&& e.spec_index() < old(self).spec_page().line_count()
                    &&& old(self).line_hit(e.spec_index() as int)
                    &&& first_match(
                        old(self).spec_page().lines()[e.spec_index() as int],
                        old(self).needle(),
                    ) == Some(e.spec_substr_start() as int)
                } by {
                    assert(self.line_hit(out@[k].spec_index() as int) == old(self).line_hit(
                        out@[k].spec_index() as int,
                    ));
                }
            }
            self.searched_lines = out;
        }
    }
}

} // verus!
