//! Search and filter queries over lines of bytes.
//!
//! A query is a pure predicate on a line that yields the half-open byte
//! range of the first match, if any.  Substring matching is case-sensitive
//! and byte-level; regular-expression matching is delegated to the `regex`
//! crate behind trusted wrappers.

use vstd::prelude::*;

verus! {

/// Bytes of a character sequence under UTF-8.
pub open spec fn str_bytes(s: Seq<char>) -> Seq<u8> {
    vstd::utf8::encode_utf8(s)
}

/// `needle` occurs in `hay` starting at byte position `i`.
pub open spec fn is_match_at(hay: Seq<u8>, needle: Seq<u8>, i: int) -> bool {
    0 <= i && i + needle.len() <= hay.len() && hay.subrange(i, i + needle.len()) == needle
}

/// Position of the first occurrence of `needle` in `hay` at or after `i`.
pub open spec fn first_match_from(hay: Seq<u8>, needle: Seq<u8>, i: int) -> Option<int>
    decreases hay.len() - i,
{
    if needle.len() == 0 {
        if 0 <= i <= hay.len() {
            Some(i)
        } else {
            None
        }
    } else if i + needle.len() > hay.len() {
        None
    } else if is_match_at(hay, needle, i) {
        Some(i)
    } else {
        first_match_from(hay, needle, i + 1)
    }
}

/// Position of the first occurrence of `needle` in `hay`.
pub open spec fn first_match(hay: Seq<u8>, needle: Seq<u8>) -> Option<int> {
    first_match_from(hay, needle, 0)
}

/// A found position is a real match, and nothing earlier matches.
pub proof fn lemma_first_match_from(hay: Seq<u8>, needle: Seq<u8>, i: int)
    requires
        0 <= i,
    ensures
        first_match_from(hay, needle, i) matches Some(p) ==> {
            &&& i <= p
            &&& is_match_at(hay, needle, p)
            &&& forall|q: int| i <= q < p ==> !is_match_at(hay, needle, q)
        },
        first_match_from(hay, needle, i) is None ==> forall|q: int|
            i <= q ==> !is_match_at(hay, needle, q),
    decreases hay.len() - i,
{
    if needle.len() == 0 {
        if i <= hay.len() {
            assert(hay.subrange(i, i) =~= needle);
        }
    } else if i + needle.len() > hay.len() {
        assert forall|q: int| i <= q implies !is_match_at(hay, needle, q) by {}
    } else if is_match_at(hay, needle, i) {
    } else {
        lemma_first_match_from(hay, needle, i + 1);
    }
}

/// A substring match, taken on its own, still satisfies the pattern:
/// the matched byte range of a line is itself matched by the same
/// needle, at its start.
pub proof fn lemma_substring_match_self(hay: Seq<u8>, needle: Seq<u8>)
    ensures
        first_match(hay, needle) matches Some(i) ==> first_match(
            hay.subrange(i, i + needle.len()),
            needle,
        ) == Some(0int),
{
    lemma_first_match_from(hay, needle, 0);
    if let Some(i) = first_match(hay, needle) {
        let seg = hay.subrange(i, i + needle.len());
        assert(seg == needle);
        assert(seg.subrange(0, needle.len() as int) =~= needle);
        assert(is_match_at(seg, needle, 0));
    }
}

fn slice_eq_at(hay: &[u8], needle: &[u8], i: usize) -> (r: bool)
    requires
        i + needle@.len() <= hay@.len(),
    ensures
        r == is_match_at(hay@, needle@, i as int),
{
    let n = needle.len();
    let hn = hay.len();
    let mut j: usize = 0;
    while j < n
        invariant
            j <= n,
            n == needle@.len(),
            hn == hay@.len(),
            i + n <= hn,
            forall|k: int| 0 <= k < j ==> hay@[i + k] == needle@[k],
        decreases n - j,
    {
        if hay[i + j] != needle[j] {
            assert(hay@.subrange(i as int, i + n) != needle@) by {
                assert(hay@.subrange(i as int, i + n)[j as int] == hay@[i + j]);
            }
            return false;
        }
        j += 1;
    }
    assert(hay@.subrange(i as int, i + n) =~= needle@);
    true
}

/// First occurrence of `needle` in `hay`, byte-exact and case-sensitive.
pub fn find_first(hay: &[u8], needle: &[u8]) -> (r: Option<usize>)
    ensures
        match r {
            Some(i) => first_match(hay@, needle@) == Some(i as int),
            None => first_match(hay@, needle@) is None,
        },
{
    let hn = hay.len();
    let nn = needle.len();
    if nn > hn {
        return None;
    }
    if nn == 0 {
        assert(is_match_at(hay@, needle@, 0)) by {
            assert(hay@.subrange(0, 0) =~= needle@);
        }
        return Some(0);
    }
    let mut i: usize = 0;
    while i <= hn - nn
        invariant
            0 < nn <= hn,
            hn == hay@.len(),
            nn == needle@.len(),
            i <= hn - nn + 1,
            first_match(hay@, needle@) == first_match_from(hay@, needle@, i as int),
        decreases hn - nn - i + 1,
    {
        if slice_eq_at(hay, needle, i) {
            return Some(i);
        }
        i += 1;
    }
    None
}

/// Result of a regular-expression search: the leftmost match of the pattern
/// in the haystack as half-open byte offsets, as the `regex` crate computes
/// it.  The value depends on the pattern and the haystack alone.
pub uninterp spec fn regex_find(pat: Seq<char>, hay: Seq<u8>) -> Option<(usize, usize)>;

/// Whether the `regex` crate accepts the pattern.
pub uninterp spec fn regex_ok(pat: Seq<char>) -> bool;

/// Relies on `regex::bytes::Regex::new`: it returns `Ok` exactly for the
/// patterns the crate accepts, depending on the pattern text alone.
#[verifier::external_body]
pub(crate) fn regex_is_valid(pat: &str) -> (r: bool)
    ensures
        r == regex_ok(pat@),
{
    regex::bytes::Regex::new(pat).is_ok()
}

/// Relies on `regex::bytes::Regex::new` and `regex::bytes::Regex::find`:
/// `find` returns the leftmost match as byte offsets into the haystack,
/// with `start <= end <= haystack.len()`, determined by the pattern and the
/// haystack alone.
#[verifier::external_body]
fn regex_find_first(pat: &str, hay: &[u8]) -> (r: Option<(usize, usize)>)
    ensures
        r == (if regex_ok(pat@) {
            regex_find(pat@, hay@)
        } else {
            None::<(usize, usize)>
        }),
        r matches Some((a, b)) ==> a <= b <= hay@.len(),
{
    let re = regex::bytes::Regex::new(pat).ok()?;
    let m = re.find(hay)?;
    Some((m.start(), m.end()))
}

/// A single search pattern: a literal byte substring or a regular
/// expression.
pub enum SearchPattern {
    Regex(String),
    Substring(String),
}

/// The first match of a pattern in a line, as a half-open byte range.
/// A regular expression whose compilation fails matches nothing.
pub open spec fn pattern_match(p: SearchPattern, hay: Seq<u8>) -> Option<(usize, usize)> {
    match p {
        SearchPattern::Substring(s) => match first_match(hay, str_bytes(s@)) {
            Some(i) => Some((i as usize, (i + str_bytes(s@).len()) as usize)),
            None => None,
        },
        SearchPattern::Regex(r) => if regex_ok(r@) {
            regex_find(r@, hay)
        } else {
            None
        },
    }
}

impl SearchPattern {
    /// The pattern text.
    pub fn get_str(&self) -> (r: &String)
        ensures
            r@ == (match *self {
                SearchPattern::Regex(s) => s@,
                SearchPattern::Substring(s) => s@,
            }),
    {
        match self {
            SearchPattern::Regex(s) => s,
            SearchPattern::Substring(s) => s,
        }
    }

    /// The pattern text, writable.
    pub fn get_mut_str(&mut self) -> (r: &mut String)
        ensures
            *r == (match *old(self) {
                SearchPattern::Regex(s) => s,
                SearchPattern::Substring(s) => s,
            }),
            *final(self) == (match *old(self) {
                SearchPattern::Regex(_) => SearchPattern::Regex(*final(r)),
                SearchPattern::Substring(_) => SearchPattern::Substring(*final(r)),
            }),
    {
        match self {
            SearchPattern::Regex(s) => s,
            SearchPattern::Substring(s) => s,
        }
    }

    /// First match of the pattern in `s`, if any.
    pub fn is_match(&self, s: &[u8]) -> (r: Option<(usize, usize)>)
        ensures
            r == pattern_match(*self, s@),
            r matches Some((a, b)) ==> a <= b <= s@.len(),
    {
        match self {
            SearchPattern::Regex(p) => regex_find_first(p.as_str(), s),
            SearchPattern::Substring(p) => {
                let needle = p.as_str().as_bytes();
                let sl = s.len();
                match find_first(s, needle) {
                    Some(i) => {
                        proof {
                            lemma_first_match_from(s@, needle@, 0);
                        }
                        assert(i + needle@.len() <= sl);
                        Some((i, i + needle.len()))
                    },
                    None => None,
                }
            },
        }
    }
}

} // verus!

verus! {

/// A complete query: a pattern to search for, a pattern to ignore, or a
/// composition of queries.
pub enum Command {
    Ignore(SearchPattern),
    SearchFor(SearchPattern),
    Any(Vec<Command>),
    Every(Vec<Command>),
}

/// The first match of a query in a line.  `Any` yields the first member's
/// match in order; `Every` yields the last member's match, or nothing if
/// any member misses.
pub open spec fn command_match(c: Command, hay: Seq<u8>) -> Option<(usize, usize)>
    decreases c,
{
    match c {
        Command::Ignore(p) => pattern_match(p, hay),
        Command::SearchFor(p) => pattern_match(p, hay),
        Command::Any(v) => any_match_from(v@, hay, 0),
        Command::Every(v) => every_match_from(v@, hay, 0, None),
    }
}

/// First member of `cs` at or after `i` that matches `hay`, and its match.
pub open spec fn any_match_from(cs: Seq<Command>, hay: Seq<u8>, i: int) -> Option<(usize, usize)>
    decreases cs, cs.len() - i,
{
    if i < 0 || i >= cs.len() {
        None
    } else {
        match command_match(cs[i], hay) {
            Some(m) => Some(m),
            None => any_match_from(cs, hay, i + 1),
        }
    }
}

/// Walks the members of `cs` from `i`, keeping the most recent match in
/// `acc`; yields nothing as soon as one member misses.
pub open spec fn every_match_from(
    cs: Seq<Command>,
    hay: Seq<u8>,
    i: int,
    acc: Option<(usize, usize)>,
) -> Option<(usize, usize)>
    decreases cs, cs.len() - i,
{
    if i < 0 || i >= cs.len() {
        acc
    } else {
        match command_match(cs[i], hay) {
            Some(m) => every_match_from(cs, hay, i + 1, Some(m)),
            None => None,
        }
    }
}

} // verus!

verus! {

/// Whether a line passes the query when used as a gate: an `Ignore` query
/// passes the lines its pattern does not match, every other query passes
/// the lines it matches.
pub open spec fn accepts(c: Command, hay: Seq<u8>) -> bool {
    match c {
        Command::Ignore(p) => pattern_match(p, hay) is None,
        _ => command_match(c, hay) is Some,
    }
}

impl Command {
    /// The pattern text of a non-composite query, writable.
    pub fn get_mut_str(&mut self) -> (r: &mut String)
        requires
            old(self) matches Command::Ignore(_) || old(self) matches Command::SearchFor(_),
        ensures
            *r == (match *old(self) {
                Command::Ignore(p) => (match p {
                    SearchPattern::Regex(s) => s,
                    SearchPattern::Substring(s) => s,
                }),
                Command::SearchFor(p) => (match p {
                    SearchPattern::Regex(s) => s,
                    SearchPattern::Substring(s) => s,
                }),
                _ => arbitrary(),
            }),
    {
        match self {
            Command::Ignore(p) => p.get_mut_str(),
            Command::SearchFor(p) => p.get_mut_str(),
            Command::Any(_) => vstd::pervasive::unreached(),
            Command::Every(_) => vstd::pervasive::unreached(),
        }
    }

    /// First match of the query in `s`, if any.
    pub fn is_match(&self, s: &[u8]) -> (r: Option<(usize, usize)>)
        ensures
            r == command_match(*self, s@),
            r matches Some((a, b)) ==> a <= b <= s@.len(),
        decreases *self,
    {
        match self {
            Command::Ignore(p) => p.is_match(s),
            Command::SearchFor(p) => p.is_match(s),
            Command::Any(v) => {
                let n = v.len();
                let mut i: usize = 0;
                while i < n
                    invariant
                        *self == Command::Any(*v),
                        i <= n,
                        n == v@.len(),
                        any_match_from(v@, s@, 0) == any_match_from(v@, s@, i as int),
                        forall|k: int| 0 <= k < i ==> (#[trigger] command_match(v@[k], s@)) is None,
                    decreases n - i,
                {
                    proof {
                        assert(decreases_to!(*self => v@[i as int])) by {
                            assert(*self == Command::Any(*v));
                        }
                    }
                    let m = v[i].is_match(s);
                    if let Some(mm) = m {
                        return Some(mm);
                    }
                    i += 1;
                }
                None
            },
            Command::Every(v) => {
                let n = v.len();
                let mut i: usize = 0;
                let mut acc: Option<(usize, usize)> = None;
                while i < n
                    invariant
                        *self == Command::Every(*v),
                        i <= n,
                        n == v@.len(),
                        every_match_from(v@, s@, 0, None) == every_match_from(
                            v@,
                            s@,
                            i as int,
                            acc,
                        ),
                        acc matches Some((a, b)) ==> a <= b <= s@.len(),
                    decreases n - i,
                {
                    proof {
                        assert(decreases_to!(*self => v@[i as int])) by {
                            assert(*self == Command::Every(*v));
                        }
                    }
                    let m = v[i].is_match(s);
                    match m {
                        Some(mm) => {
                            acc = Some(mm);
                        },
                        None => {
                            assert(every_match_from(v@, s@, i as int, acc) == None::<(
                                usize,
                                usize,
                            )>);
                            return None;
                        },
                    }
                    i += 1;
                }
                acc
            },
        }
    }

    /// Whether `s` passes the query as a gate.
    pub fn matches_line(&self, s: &[u8]) -> (r: bool)
        ensures
            r == accepts(*self, s@),
    {
        match self {
            Command::Ignore(p) => p.is_match(s).is_none(),
            _ => self.is_match(s).is_some(),
        }
    }
}

} // verus!

verus! {

/// Relies on the documented behaviour of `String::push`: it appends one
/// character.
pub assume_specification[ String::push ](s: &mut String, ch: char)
    ensures
        final(s)@ == old(s)@.push(ch),
;

/// Relies on the documented behaviour of `String::pop`: it removes and
/// returns the last character, if any.
pub assume_specification[ String::pop ](s: &mut String) -> (r: Option<char>)
    ensures
        old(s)@.len() == 0 ==> r is None && final(s)@ == old(s)@,
        old(s)@.len() > 0 ==> r == Some(old(s)@.last()) && final(s)@ == old(s)@.drop_last(),
;

/// Which command line the user is editing, if any.
#[derive(Debug, Clone, Copy, PartialEq, Eq, Structural)]
pub enum CommandType {
    /// No command line is open.
    Inactive,
    /// A literal search.
    Search,
    /// A regular-expression search.
    Regex,
    /// An inverted search.
    Ignore,
    /// A filter on the rendered lines.
    Filter,
    /// A jump to a line number.
    JumpTo,
}

/// The command line being edited: its kind and its text so far.
pub struct CommandBuilder {
    /// Which command is being edited.
    pub cmd_type: CommandType,
    /// The text typed so far.
    pub cmd: String,
}

impl CommandBuilder {
    /// An empty, inactive command line.
    pub fn new() -> (r: Self)
        ensures
            r.cmd_type == CommandType::Inactive,
            r.cmd@ == Seq::<char>::empty(),
    {
        CommandBuilder { cmd_type: CommandType::Inactive, cmd: String::new() }
    }

    /// Empties the command line and closes it.
    pub fn clear(&mut self)
        ensures
            final(self).cmd_type == CommandType::Inactive,
            final(self).cmd@ == Seq::<char>::empty(),
    {
        self.cmd_type = CommandType::Inactive;
        self.cmd = String::new();
    }

    /// The query this command line stands for, or nothing when the line
    /// is no query, or holds a rejected regular expression.
    pub fn build(&self) -> (r: Option<Command>)
        ensures
            match self.cmd_type {
                CommandType::Search => r matches Some(c) && c == Command::SearchFor(
                    SearchPattern::Substring(self.cmd),
                ),
                CommandType::Regex => {
                    if regex_ok(self.cmd@) {
                        r matches Some(c) && c == Command::SearchFor(
                            SearchPattern::Regex(self.cmd),
                        )
                    } else {
                        r is None
                    }
                },
                CommandType::Ignore => r matches Some(c) && c == Command::Ignore(
                    SearchPattern::Substring(self.cmd),
                ),
                CommandType::Filter => r matches Some(c) && c == Command::SearchFor(
                    SearchPattern::Substring(self.cmd),
                ),
                _ => r is None,
            },
    {
        match self.cmd_type {
            CommandType::Search => Some(
                Command::SearchFor(SearchPattern::Substring(self.cmd.clone())),
            ),
            CommandType::Regex => {
                if regex_is_valid(self.cmd.as_str()) {
                    Some(Command::SearchFor(SearchPattern::Regex(self.cmd.clone())))
                } else {
                    None
                }
            },
            CommandType::Ignore => Some(
                Command::Ignore(SearchPattern::Substring(self.cmd.clone())),
            ),
            CommandType::Filter => Some(
                Command::SearchFor(SearchPattern::Substring(self.cmd.clone())),
            ),
            CommandType::Inactive => None,
            CommandType::JumpTo => None,
        }
    }
}

} // verus!

verus! {

/// One matched row: a stored line's index, its bytes, and the byte
/// range highlighted in it.
pub struct LineWithIdx {
    /// Index of the line within its page.
    pub idx: usize,
    /// The line's bytes.
    pub line: Vec<u8>,
    /// The highlighted byte range.
    pub highlight: (usize, usize),
}

/// Rows to paint and the window of them that is visible.
pub struct LinesToRenderAndView {
    /// The rows.
    pub lines: Vec<LineWithIdx>,
    /// Half-open range of `lines` that the viewport shows.
    pub view: (usize, usize),
}

/// A scroll state that records, as lines arrive, the rows its query
/// matches.
pub struct CommandsScrollState {
    page: crate::pages::Page,
    page_view: (usize, usize),
    auto_scroll: bool,
    lines_being_drawn: LinesToRenderAndView,
    width: usize,
    height: usize,
    requires_redraw: bool,
    command: Command,
}

impl CommandsScrollState {
    /// The page of stored lines.
    pub closed spec fn spec_page(&self) -> crate::pages::Page {
        self.page
    }

    /// The active query.
    pub closed spec fn spec_command(&self) -> Command {
        self.command
    }

    /// The matched rows recorded so far.
    pub closed spec fn spec_rows(&self) -> Seq<LineWithIdx> {
        self.lines_being_drawn.lines@
    }

    /// A state over `page` that records the rows `command` matches.
    pub fn new(page: crate::pages::Page, command: Command) -> (r: Self)
        ensures
            r.spec_page() == page,
            r.spec_command() == command,
            r.spec_rows() == Seq::<LineWithIdx>::empty(),
    {
        CommandsScrollState {
            page,
            page_view: (0, 0),
            auto_scroll: true,
            lines_being_drawn: LinesToRenderAndView { lines: Vec::new(), view: (0, 0) },
            width: 0,
            height: 0,
            requires_redraw: false,
            command,
        }
    }

    /// Appends one line to the page; when the query matches it, the row
    /// is recorded with the matched byte range.
    pub fn add_line(&mut self, line: &[u8])
        requires
            old(self).spec_page().wf(),
        ensures
            final(self).spec_page().wf(),
            final(self).spec_page().lines() == old(self).spec_page().lines().push(line@),
            final(self).spec_command() == old(self).spec_command(),
            match command_match(old(self).spec_command(), line@) {
                Some(rng) => {
                    &&& final(self).spec_rows().len() == old(self).spec_rows().len() + 1
                    &&& final(self).spec_rows().take(old(self).spec_rows().len() as int) == old(
                        self,
                    ).spec_rows()
                    &&& final(self).spec_rows().last().idx == old(self).spec_page().line_count()
                    &&& final(self).spec_rows().last().line@ == line@
                    &&& final(self).spec_rows().last().highlight == rng
                },
                None => final(self).spec_rows() == old(self).spec_rows(),
            },
    {
        let idx = self.page.add_line(line);
        match self.command.is_match(line) {
            Some(mat) => {
                let mut copy: Vec<u8> = Vec::new();
                copy.extend_from_slice(line);
                self.lines_being_drawn.lines.push(
                    LineWithIdx { idx, line: copy, highlight: mat },
                );
            },
            None => {},
        }
    }
}

} // verus!
