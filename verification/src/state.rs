//! Terminal-free pieces of the earliest interactive state: a cursor
//! position and a store of lines with a plain search term.

use vstd::prelude::*;

use crate::command::find_first;
use crate::command::first_match;
use crate::command::str_bytes;
use crate::pages::Pages;

verus! {

/// A cell position.
#[derive(Default, Copy, Clone)]
pub struct Vec2 {
    x: u16,
    y: u16,
}

impl Vec2 {
    /// The column.
    pub closed spec fn spec_x(&self) -> u16 {
        self.x
    }

    /// The row.
    pub closed spec fn spec_y(&self) -> u16 {
        self.y
    }

    /// The position `(x, y)`.
    pub fn new(x: u16, y: u16) -> (r: Self)
        ensures
            r.spec_x() == x,
            r.spec_y() == y,
    {
        Self { x, y }
    }
}

/// Stored lines, a cursor, and the lines found by the current search
/// term.
pub struct State {
    pages: Pages,
    cursor_position: Vec2,
    current_search_term: String,
    current_found_lines: Vec<String>,
}

impl State {
    /// The stored lines.
    pub closed spec fn spec_pages(&self) -> Pages {
        self.pages
    }

    /// The active search term.
    pub closed spec fn spec_term(&self) -> Seq<char> {
        self.current_search_term@
    }

    /// The lines recorded as containing the term.
    pub closed spec fn spec_found(&self) -> Seq<Seq<char>> {
        Seq::new(self.current_found_lines@.len(), |i: int| self.current_found_lines@[i]@)
    }

    /// The cursor position.
    pub closed spec fn spec_cursor(&self) -> Vec2 {
        self.cursor_position
    }

    /// A fresh state with an empty store and no search term.
    pub fn new() -> (r: Self)
        ensures
            r.spec_pages().wf(),
            r.spec_pages().history() =~= Seq::<Seq<u8>>::empty(),
            r.spec_term() == Seq::<char>::empty(),
            r.spec_found() =~= Seq::<Seq<char>>::empty(),
    {
        Self {
            pages: Pages::new(40000, 10),
            cursor_position: Vec2::new(0, 0),
            current_search_term: String::new(),
            current_found_lines: Vec::new(),
        }
    }

    /// The cursor position.
    pub fn cursor_pos(&self) -> (r: Vec2)
        ensures
            r == self.spec_cursor(),
    {
        self.cursor_position
    }

    /// Appends one line to the store; a line containing the active,
    /// non-empty search term is also recorded.
    pub fn add_line(&mut self, s: &str)
        requires
            old(self).spec_pages().wf(),
            old(self).spec_pages().spec_lines_count() < usize::MAX,
        ensures
            final(self).spec_pages().wf(),
            final(self).spec_pages().history() == old(self).spec_pages().history().push(
                str_bytes(s@),
            ),
            final(self).spec_term() == old(self).spec_term(),
            ({
                let hit = old(self).spec_term().len() > 0 && first_match(
                    str_bytes(s@),
                    str_bytes(old(self).spec_term()),
                ) is Some;
                if hit {
                    final(self).spec_found() =~= old(self).spec_found().push(s@)
                } else {
                    final(self).spec_found() =~= old(self).spec_found()
                }
            }),
    {
        let bytes = s.as_bytes();
        self.pages.add_line(bytes);
        if !self.current_search_term.as_str().is_empty() && find_first(
            bytes,
            self.current_search_term.as_str().as_bytes(),
        ).is_some() {
            self.current_found_lines.push(s.to_owned());
            proof {
                assert(final(self).spec_found() =~= old(self).spec_found().push(s@));
            }
        }
    }

    /// Sets the search term, dropping the lines found so far; an empty
    /// term clears the search.
    pub fn set_search_string(&mut self, s: String)
        ensures
            final(self).spec_term() == s@,
            final(self).spec_found() =~= Seq::<Seq<char>>::empty(),
            final(self).spec_pages() == old(self).spec_pages(),
    {
        self.current_search_term = s;
        self.current_found_lines = Vec::new();
    }
}

} // verus!
