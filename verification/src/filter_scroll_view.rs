//! The earliest view: one growing text buffer with a scroll offset, and
//! a helper that picks the buffer's lines containing a needle.

use vstd::prelude::*;

use crate::TuiMode;
use crate::command::find_first;
use crate::command::first_match;
use crate::command::str_bytes;
use vstd::string::StrSliceExecFns;
use vstd::string::StringExecFns;

verus! {

/// A read-only handle on the state, from which rows are computed.
pub struct ScrollView<'a> {
    state: &'a State,
}

impl<'a> ScrollView<'a> {
    /// The viewed state.
    pub closed spec fn state_ref(&self) -> &'a State {
        self.state
    }

    /// A view over `state`.
    pub fn new(state: &'a State) -> (r: Self)
        ensures
            r.state_ref() == state,
    {
        Self { state }
    }
}

/// A scroll offset over one growing text buffer.
pub struct State {
    vertical_position: usize,
    content: String,
    mode: TuiMode,
    auto_scroll: bool,
    /// The command text being typed.
    pub command: String,
}

impl State {
    /// The scroll offset, counted in rows from the bottom.
    pub closed spec fn spec_position(&self) -> nat {
        self.vertical_position as nat
    }

    /// The buffered text.
    pub closed spec fn spec_content(&self) -> Seq<char> {
        self.content@
    }

    /// The interaction mode.
    pub closed spec fn spec_mode(&self) -> TuiMode {
        self.mode
    }

    /// Whether the view follows the tail.
    pub closed spec fn spec_auto_scroll(&self) -> bool {
        self.auto_scroll
    }

    /// The command text being typed.
    pub closed spec fn spec_command(&self) -> Seq<char> {
        self.command@
    }

    /// A state over `content` at the given offset and mode.
    pub fn new(vertical_position: usize, content: String, mode: TuiMode, auto_scroll: bool) -> (r:
        Self)
        ensures
            r.spec_position() == vertical_position,
            r.spec_content() == content@,
            r.spec_mode() == mode,
            r.spec_auto_scroll() == auto_scroll,
            r.spec_command() == Seq::<char>::empty(),
    {
        Self { vertical_position, content, mode, auto_scroll, command: String::new() }
    }

    /// Sets the interaction mode.
    pub fn set_mode(&mut self, mode: TuiMode)
        ensures
            final(self).spec_mode() == mode,
            final(self).spec_content() == old(self).spec_content(),
            final(self).spec_position() == old(self).spec_position(),
            final(self).spec_auto_scroll() == old(self).spec_auto_scroll(),
            final(self).spec_command() == old(self).spec_command(),
    {
        self.mode = mode;
    }

    /// The interaction mode.
    pub fn get_mode(&self) -> (r: TuiMode)
        ensures
            r == self.spec_mode(),
    {
        self.mode
    }

    /// Appends text to the buffer.
    pub fn add_content(&mut self, s: &str)
        ensures
            final(self).spec_content() == old(self).spec_content() + s@,
            final(self).spec_mode() == old(self).spec_mode(),
            final(self).spec_position() == old(self).spec_position(),
            final(self).spec_auto_scroll() == old(self).spec_auto_scroll(),
            final(self).spec_command() == old(self).spec_command(),
    {
        self.content.append(s);
    }

    /// The buffered text.
    pub fn get_content(&self) -> (r: &str)
        ensures
            r@ == self.spec_content(),
    {
        self.content.as_str()
    }

    /// Moves one row away from the tail and stops following it.
    pub fn go_up(&mut self)
        requires
            old(self).spec_position() < usize::MAX,
        ensures
            final(self).spec_position() == old(self).spec_position() + 1,
            !final(self).spec_auto_scroll(),
            final(self).spec_content() == old(self).spec_content(),
            final(self).spec_mode() == old(self).spec_mode(),
            final(self).spec_command() == old(self).spec_command(),
    {
        self.vertical_position = self.vertical_position + 1;
        self.set_auto_scroll(false);
    }

    /// Moves one row toward the tail and stops following it.
    pub fn go_down(&mut self)
        ensures
            final(self).spec_position() == (if old(self).spec_position() > 0 {
                (old(self).spec_position() - 1) as nat
            } else {
                0nat
            }),
            !final(self).spec_auto_scroll(),
            final(self).spec_content() == old(self).spec_content(),
            final(self).spec_mode() == old(self).spec_mode(),
            final(self).spec_command() == old(self).spec_command(),
    {
        if self.vertical_position > 0 {
            self.vertical_position = self.vertical_position - 1;
        }
        self.set_auto_scroll(false);
    }

    /// Sets whether the view follows the tail.
    pub fn set_auto_scroll(&mut self, auto_scroll: bool)
        ensures
            final(self).spec_auto_scroll() == auto_scroll,
            final(self).spec_position() == old(self).spec_position(),
            final(self).spec_content() == old(self).spec_content(),
            final(self).spec_mode() == old(self).spec_mode(),
            final(self).spec_command() == old(self).spec_command(),
    {
        self.auto_scroll = auto_scroll;
    }

    /// Whether the view follows the tail.
    pub fn auto_scroll(&self) -> (r: bool)
        ensures
            r == self.spec_auto_scroll(),
    {
        self.auto_scroll
    }
}

/// One line of the buffer that contains the needle, with the byte range
/// of the first occurrence.
pub struct SearchResultLine {
    line: String,
    substr_start: usize,
    substr_end: usize,
}

impl SearchResultLine {
    /// The line's text.
    pub closed spec fn spec_line(&self) -> Seq<char> {
        self.line@
    }

    /// First byte of the occurrence.
    pub closed spec fn spec_substr_start(&self) -> nat {
        self.substr_start as nat
    }

    /// One past the last byte of the occurrence.
    pub closed spec fn spec_substr_end(&self) -> nat {
        self.substr_end as nat
    }

    /// The line's text.
    pub fn line(&self) -> (r: &str)
        ensures
            r@ == self.spec_line(),
    {
        self.line.as_str()
    }
}

/// Position of the first newline at or after `i`, or the text's length.
pub open spec fn first_nl_from(s: Seq<char>, i: int) -> int
    decreases s.len() - i,
{
    if i < 0 || i >= s.len() {
        s.len() as int
    } else if s[i] == '\n' {
        i
    } else {
        first_nl_from(s, i + 1)
    }
}

/// The first newline at or after `i` lies between `i` and the end.
proof fn lemma_first_nl_from_range(s: Seq<char>, i: int)
    requires
        0 <= i <= s.len(),
    ensures
        i <= first_nl_from(s, i) <= s.len(),
    decreases s.len() - i,
{
    if i < s.len() && s[i] != '\n' {
        lemma_first_nl_from_range(s, i + 1);
    }
}

/// A stretch without newlines that ends at a newline or at the end
/// pins the first newline position.
proof fn lemma_first_nl_at(s: Seq<char>, a: int, b: int)
    requires
        0 <= a <= b <= s.len(),
        forall|m: int| a <= m < b ==> s[m] != '\n',
        b == s.len() || s[b] == '\n',
    ensures
        first_nl_from(s, a) == b,
    decreases b - a,
{
    if a < b {
        lemma_first_nl_at(s, a + 1, b);
    }
}

/// The newline-separated segments of the text from position `i` on; a
/// trailing newline yields a final empty segment.
pub open spec fn split_from(s: Seq<char>, i: int) -> Seq<Seq<char>>
    decreases s.len() - i via Self_split_decreases
{
    if !(0 <= i <= s.len()) {
        Seq::empty()
    } else {
        let k = first_nl_from(s, i);
        if k == s.len() {
            seq![s.subrange(i, k)]
        } else {
            seq![s.subrange(i, k)] + split_from(s, k + 1)
        }
    }
}

#[via_fn]
proof fn Self_split_decreases(s: Seq<char>, i: int) {
    if 0 <= i <= s.len() {
        lemma_first_nl_from_range(s, i);
    }
}

/// The segments in which the needle occurs, in text order.
pub open spec fn hits_of(ls: Seq<Seq<char>>, needle: Seq<u8>) -> Seq<Seq<char>>
    decreases ls.len(),
{
    if ls.len() == 0 {
        Seq::empty()
    } else if first_match(str_bytes(ls[0]), needle) is Some {
        seq![ls[0]] + hits_of(ls.drop_first(), needle)
    } else {
        hits_of(ls.drop_first(), needle)
    }
}

/// The newline-separated segments of `main_content` in which
/// `search_str` occurs — all of them, in text order — each with the
/// byte range of its first occurrence.
pub fn get_searched_lines(main_content: &str, search_str: &str) -> (r: Vec<SearchResultLine>)
    ensures
        Seq::new(r@.len() as nat, |k: int| r@[k].spec_line()) == hits_of(
            split_from(main_content@, 0),
            str_bytes(search_str@),
        ),
        forall|k: int|
            0 <= k < r@.len() ==> {
                let e = #[trigger] r@[k];
                &&& first_match(str_bytes(e.spec_line()), str_bytes(search_str@)) == Some(
                    e.spec_substr_start() as int,
                )
                &&& e.spec_substr_end() == e.spec_substr_start() + str_bytes(search_str@).len()
                &&& !e.spec_line().contains('\n')
            },
{
    let mut out: Vec<SearchResultLine> = Vec::new();
    let n = main_content.unicode_len();
    let needle = search_str.as_bytes();
    let mut start: usize = 0;
    let mut i: usize = 0;
    proof {
        assert(Seq::new(out@.len() as nat, |k: int| out@[k].spec_line()) + hits_of(
            split_from(main_content@, 0),
            needle@,
        ) =~= hits_of(split_from(main_content@, 0), needle@));
    }
    while i < n
        invariant
            n == main_content@.len(),
            start <= i <= n,
            needle@ == str_bytes(search_str@),
            forall|m: int| start <= m < i ==> main_content@[m] != '\n',
            Seq::new(out@.len() as nat, |k: int| out@[k].spec_line()) + hits_of(
                split_from(main_content@, start as int),
                needle@,
            ) == hits_of(split_from(main_content@, 0), needle@),
            forall|k: int|
                0 <= k < out@.len() ==> {
                    let e = #[trigger] out@[k];
                    &&& first_match(str_bytes(e.spec_line()), str_bytes(search_str@)) == Some(
                        e.spec_substr_start() as int,
                    )
                    &&& e.spec_substr_end() == e.spec_substr_start() + str_bytes(
                        search_str@,
                    ).len()
                    &&& !e.spec_line().contains('\n')
                },
        decreases n - i,
    {
        if main_content.get_char(i) == '\n' {
            proof {
                lemma_first_nl_at(main_content@, start as int, i as int);
            }
            let seg = main_content.substring_char(start, i);
            let ghost old_out = out@;
            let sb = seg.as_bytes();
            let sl = sb.len();
            match find_first(sb, needle) {
                Some(pos) => {
                    proof {
                        crate::command::lemma_first_match_from(sb@, needle@, 0);
                        assert(pos + needle@.len() <= sl);
                    }
                    let end = pos + needle.len();
                    proof {
                        assert forall|m: int| 0 <= m < seg@.len() implies seg@[m] != '\n' by {
                            assert(seg@[m] == main_content@[start + m]);
                        }
                        assert(!seg@.contains('\n'));
                    }
                    out.push(
                        SearchResultLine {
                            line: seg.to_owned(),
                            substr_start: pos,
                            substr_end: end,
                        },
                    );
                },
                None => {},
            }
            proof {
                let c = main_content@;
                let nd = needle@;
                let sp = split_from(c, start as int);
                assert(sp == seq![seg@] + split_from(c, i + 1));
                assert(sp.drop_first() =~= split_from(c, i + 1));
                assert(sp[0] == seg@);
                if first_match(str_bytes(seg@), nd) is Some {
                    assert(hits_of(sp, nd) =~= seq![seg@] + hits_of(split_from(c, i + 1), nd));
                    assert(Seq::new(out@.len() as nat, |k: int| out@[k].spec_line()) =~= Seq::new(
                        old_out.len() as nat,
                        |k: int| old_out[k].spec_line(),
                    ).push(seg@));
                } else {
                    assert(hits_of(sp, nd) =~= hits_of(split_from(c, i + 1), nd));
                }
                assert(Seq::new(out@.len() as nat, |k: int| out@[k].spec_line()) + hits_of(
                    split_from(c, i + 1),
                    nd,
                ) =~= hits_of(split_from(c, 0), nd));
            }
            start = i + 1;
        }
        i += 1;
    }
    proof {
        lemma_first_nl_at(main_content@, start as int, n as int);
    }
    let seg = main_content.substring_char(start, n);
    let ghost old_out = out@;
    let sb = seg.as_bytes();
    let sl = sb.len();
    match find_first(sb, needle) {
        Some(pos) => {
            proof {
                crate::command::lemma_first_match_from(sb@, needle@, 0);
                assert(pos + needle@.len() <= sl);
            }
            let end = pos + needle.len();
            proof {
                assert forall|m: int| 0 <= m < seg@.len() implies seg@[m] != '\n' by {
                    assert(seg@[m] == main_content@[start + m]);
                }
                assert(!seg@.contains('\n'));
            }
            out.push(
                SearchResultLine { line: seg.to_owned(), substr_start: pos, substr_end: end },
            );
        },
        None => {},
    }
    proof {
        let c = main_content@;
        let nd = needle@;
        let sp = split_from(c, start as int);
        assert(sp =~= seq![seg@]);
        assert(sp.drop_first() =~= Seq::<Seq<char>>::empty());
        assert(hits_of(Seq::<Seq<char>>::empty(), nd) =~= Seq::<Seq<char>>::empty());
        if first_match(str_bytes(seg@), nd) is Some {
            assert(hits_of(sp, nd) =~= seq![seg@]);
            assert(Seq::new(out@.len() as nat, |k: int| out@[k].spec_line()) =~= Seq::new(
                old_out.len() as nat,
                |k: int| old_out[k].spec_line(),
            ).push(seg@));
        } else {
            assert(hits_of(sp, nd) =~= Seq::<Seq<char>>::empty());
        }
        assert(Seq::new(out@.len() as nat, |k: int| out@[k].spec_line()) =~= hits_of(
            split_from(c, 0),
            nd,
        ));
    }
    out
}

} // verus!
