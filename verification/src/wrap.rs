//! Word wrap with exact byte-range accounting.
//!
//! A line is broken into sub-lines for a positive cell width.  Each
//! sub-line is the half-open byte range of the original line it covers;
//! the ranges are consecutive and together cover the whole line, so the
//! renderer and the match projector can align highlights byte for byte.
//! Breaks prefer the position just after a blank; a word wider than the
//! width breaks at the width boundary.  Display width is counted per
//! decoded character: a tab four cells, a carriage return zero, every
//! other character its Unicode column width (East Asian wide characters
//! two cells, zero-width marks none); bytes that do not form UTF-8
//! count as the replacement character.

use vstd::prelude::*;

verus! {

/// Displayed column width of one character, as the `unicode_width`
/// crate computes it, with control characters counted as zero.  The
/// value depends on the character alone.
pub uninterp spec fn cell_width_of(c: char) -> usize;

/// Relies on `unicode_width::UnicodeWidthChar::width`: the character's
/// displayed width in columns per Unicode Standard Annex #11 — East
/// Asian wide characters two columns, zero-width marks none — and
/// `None` for control characters, depending on the character alone.
#[verifier::external_body]
fn char_cell_width(c: char) -> (r: usize)
    ensures
        r == cell_width_of(c),
{
    unicode_width::UnicodeWidthChar::width(c).unwrap_or(0)
}

/// Relies on the documented behaviour of `char::from_u32`: it returns
/// the character for every value that is not a surrogate and does not
/// exceed the last code point, and nothing otherwise.
pub assume_specification[ char::from_u32 ](v: u32) -> (r: Option<char>)
    ensures
        (r is Some) == (v < 0xD800 || (0xE000 <= v && v <= 0x10FFFF)),
        r matches Some(c) ==> c as u32 == v,
;

/// The byte continues a UTF-8 sequence.
pub open spec fn is_cont_byte(b: u8) -> bool {
    0x80 <= b < 0xC0
}

/// The byte is a blank at which wrapping prefers to break.
pub open spec fn is_break(b: u8) -> bool {
    b == 32 || b == 9
}

/// Number of bytes the UTF-8 sequence at position `i` occupies: what
/// its lead byte announces when the continuation bytes are there, one
/// byte otherwise.
pub open spec fn char_len_at(s: Seq<u8>, i: int) -> int {
    let b = s[i];
    if b < 0x80 {
        1
    } else if 0xC2 <= b < 0xE0 && i + 2 <= s.len() && is_cont_byte(s[i + 1]) {
        2
    } else if 0xE0 <= b < 0xF0 && i + 3 <= s.len() && is_cont_byte(s[i + 1]) && is_cont_byte(
        s[i + 2],
    ) {
        3
    } else if 0xF0 <= b < 0xF5 && i + 4 <= s.len() && is_cont_byte(s[i + 1]) && is_cont_byte(
        s[i + 2],
    ) && is_cont_byte(s[i + 3]) {
        4
    } else {
        1
    }
}

/// The character the sequence at position `i` stands for; malformed
/// input and invalid scalars stand for the replacement character.
pub open spec fn scalar_at(s: Seq<u8>, i: int) -> char {
    let b = s[i] as u32;
    let n = char_len_at(s, i);
    if n == 1 {
        if s[i] < 0x80 {
            s[i] as char
        } else {
            '\u{FFFD}'
        }
    } else if n == 2 {
        (((b & 0x1F) << 6) | (s[i + 1] as u32 & 0x3F)) as char
    } else if n == 3 {
        let v = ((b & 0x0F) << 12) | ((s[i + 1] as u32 & 0x3F) << 6) | (s[i + 2] as u32 & 0x3F);
        if 0xD800 <= v < 0xE000 {
            '\u{FFFD}'
        } else {
            v as char
        }
    } else {
        let v = ((b & 0x07) << 18) | ((s[i + 1] as u32 & 0x3F) << 12) | ((s[i + 2] as u32 & 0x3F)
            << 6) | (s[i + 3] as u32 & 0x3F);
        if v > 0x10FFFF || (0xD800 <= v && v < 0xE000) {
            '\u{FFFD}'
        } else {
            v as char
        }
    }
}

/// Cell width of one character: a tab four, a carriage return zero,
/// anything else its Unicode column width.
pub open spec fn char_width(c: char) -> nat {
    if c == '\t' {
        4
    } else if c == '\r' {
        0
    } else {
        cell_width_of(c) as nat
    }
}

/// Cell width of the byte sequence from position `i` on, counted per
/// decoded character.
pub open spec fn width_from(s: Seq<u8>, i: int) -> nat
    decreases s.len() - i,
{
    if i < 0 || i >= s.len() {
        0
    } else {
        char_width(scalar_at(s, i)) + width_from(s, i + char_len_at(s, i))
    }
}

/// Cell width of a byte sequence.
pub open spec fn width_of(s: Seq<u8>) -> nat {
    width_from(s, 0)
}

/// End of the longest prefix from position `i` that stays within `w`
/// cells, advancing whole characters.
pub open spec fn max_fit_from(s: Seq<u8>, w: int, i: int) -> int
    decreases s.len() - i,
{
    if i < 0 || i >= s.len() {
        i
    } else {
        let cw = char_width(scalar_at(s, i));
        if cw > w {
            i
        } else {
            max_fit_from(s, w - cw, i + char_len_at(s, i))
        }
    }
}

/// End of the longest prefix of `s` that stays within `w` cells.
pub open spec fn max_fit(s: Seq<u8>, w: nat) -> int {
    max_fit_from(s, w as int, 0)
}

/// The largest position `p <= bound` such that the byte before `p` is a
/// blank, or `0` when there is none.
pub open spec fn last_break_before(s: Seq<u8>, bound: int) -> int
    decreases bound,
{
    if bound <= 0 {
        0
    } else if is_break(s[bound - 1]) {
        bound
    } else {
        last_break_before(s, bound - 1)
    }
}

/// The end of the first sub-line of `s`: the whole line when it fits,
/// else the position just after the last blank within the width, else
/// the width boundary, always making progress by at least one byte.
pub open spec fn first_cut(s: Seq<u8>, w: nat) -> int {
    let fit = max_fit(s, w);
    if fit >= s.len() {
        s.len() as int
    } else {
        let p = last_break_before(s, fit);
        if p > 0 {
            p
        } else if fit > 0 {
            fit
        } else {
            char_len_at(s, 0)
        }
    }
}

/// `first_cut`, clamped into `[1, s.len()]`.
pub open spec fn cut_at(s: Seq<u8>, w: nat) -> int {
    let c = first_cut(s, w);
    if c < 1 {
        1
    } else if c > s.len() {
        s.len() as int
    } else {
        c
    }
}

/// The sub-line ranges of `s` from byte position `pos` on.
pub open spec fn wrap_from(s: Seq<u8>, w: nat, pos: int) -> Seq<(usize, usize)>
    decreases s.len() - pos,
{
    if pos < 0 || pos >= s.len() {
        Seq::empty()
    } else {
        let c = cut_at(s.skip(pos), w);
        seq![(pos as usize, (pos + c) as usize)] + wrap_from(s, w, pos + c)
    }
}

/// The sub-line byte ranges of a whole line.  An empty line still
/// occupies one blank sub-line.
pub open spec fn spec_wrap(s: Seq<u8>, w: nat) -> Seq<(usize, usize)> {
    if s.len() == 0 {
        seq![(0usize, 0usize)]
    } else {
        wrap_from(s, w, 0)
    }
}

/// Number of sub-lines a line occupies at width `w`.
pub open spec fn wrap_count(s: Seq<u8>, w: nat) -> nat {
    spec_wrap(s, w).len()
}

/// `cut_at` always makes progress and never overshoots.
pub proof fn lemma_cut_at_bounds(s: Seq<u8>, w: nat)
    requires
        s.len() >= 1,
    ensures
        1 <= cut_at(s, w) <= s.len(),
{
}

/// The ranges from `pos` start at `pos`, are consecutive, non-empty,
/// and end exactly at the end of the line.
pub proof fn lemma_wrap_from_covers(s: Seq<u8>, w: nat, pos: int)
    requires
        0 <= pos <= s.len(),
        s.len() <= usize::MAX,
    ensures
        ({
            let r = wrap_from(s, w, pos);
            &&& pos == s.len() ==> r.len() == 0
            &&& pos < s.len() ==> {
                &&& r.len() >= 1
                &&& r[0].0 == pos
                &&& r.last().1 == s.len()
            }
            &&& forall|k: int| 0 <= k < r.len() - 1 ==> (#[trigger] r[k]).1 == r[k + 1].0
            &&& forall|k: int| 0 <= k < r.len() ==> (#[trigger] r[k]).0 < r[k].1
        }),
    decreases s.len() - pos,
{
    if pos < s.len() {
        let c = cut_at(s.skip(pos), w);
        lemma_cut_at_bounds(s.skip(pos), w);
        lemma_wrap_from_covers(s, w, pos + c);
        let head = seq![(pos as usize, (pos + c) as usize)];
        let rest = wrap_from(s, w, pos + c);
        assert(wrap_from(s, w, pos) == head + rest);
        if pos + c == s.len() {
            assert(rest.len() == 0);
        }
    }
}

/// The sub-line ranges of a line partition `[0, s.len())` exactly: the
/// first starts at zero, each starts where the one before it ends, the
/// last ends at the line's length, and on a non-empty line every
/// sub-line is non-empty.
pub proof fn lemma_wrap_covers(s: Seq<u8>, w: nat)
    requires
        s.len() <= usize::MAX,
    ensures
        ({
            let r = spec_wrap(s, w);
            &&& r.len() >= 1
            &&& r[0].0 == 0
            &&& r.last().1 == s.len()
            &&& forall|k: int| 0 <= k < r.len() - 1 ==> (#[trigger] r[k]).1 == r[k + 1].0
            &&& s.len() > 0 ==> forall|k: int| 0 <= k < r.len() ==> (#[trigger] r[k]).0 < r[k].1
        }),
{
    if s.len() == 0 {
    } else {
        lemma_wrap_from_covers(s, w, 0);
    }
}

/// A line occupies at least one sub-line at any width.
pub proof fn lemma_wrap_count_pos(s: Seq<u8>, w: nat)
    requires
        s.len() <= usize::MAX,
    ensures
        wrap_count(s, w) >= 1,
{
    lemma_wrap_covers(s, w);
}

} // verus!

verus! {

/// Number of bytes of the UTF-8 sequence at position `i`.
fn char_len_at_exec(s: &[u8], i: usize) -> (r: usize)
    requires
        i < s@.len(),
    ensures
        r == char_len_at(s@, i as int),
        1 <= r,
        i + r <= s@.len(),
{
    let n = s.len();
    let b = s[i];
    if b < 0x80 {
        1
    } else if 0xC2 <= b && b < 0xE0 && n - i >= 2 && 0x80 <= s[i + 1] && s[i + 1] < 0xC0 {
        2
    } else if 0xE0 <= b && b < 0xF0 && n - i >= 3 && 0x80 <= s[i + 1] && s[i + 1] < 0xC0 && 0x80
        <= s[i + 2] && s[i + 2] < 0xC0 {
        3
    } else if 0xF0 <= b && b < 0xF5 && n - i >= 4 && 0x80 <= s[i + 1] && s[i + 1] < 0xC0 && 0x80
        <= s[i + 2] && s[i + 2] < 0xC0 && 0x80 <= s[i + 3] && s[i + 3] < 0xC0 {
        4
    } else {
        1
    }
}

/// The character decoded at position `i`.
fn scalar_at_exec(s: &[u8], i: usize) -> (c: char)
    requires
        i < s@.len(),
    ensures
        c == scalar_at(s@, i as int),
{
    let n = char_len_at_exec(s, i);
    if n == 1 {
        let b = s[i];
        if b < 0x80 {
            b as char
        } else {
            '\u{FFFD}'
        }
    } else if n == 2 {
        let b = s[i] as u32;
        let b1 = s[i + 1] as u32;
        let v = ((b & 0x1F) << 6) | (b1 & 0x3F);
        proof {
            assert(v < 0xD800) by (bit_vector)
                requires
                    v == ((b & 0x1F) << 6) | (b1 & 0x3F),
            ;
        }
        match char::from_u32(v) {
            Some(c) => {
                proof {
                    vstd::utf8::char_u32_cast(c, v);
                }
                c
            },
            None => vstd::pervasive::unreached(),
        }
    } else if n == 3 {
        let b = s[i] as u32;
        let b1 = s[i + 1] as u32;
        let b2 = s[i + 2] as u32;
        let v = ((b & 0x0F) << 12) | ((b1 & 0x3F) << 6) | (b2 & 0x3F);
        proof {
            assert(v <= 0xFFFF) by (bit_vector)
                requires
                    v == ((b & 0x0F) << 12) | ((b1 & 0x3F) << 6) | (b2 & 0x3F),
            ;
        }
        if 0xD800 <= v && v < 0xE000 {
            '\u{FFFD}'
        } else {
            match char::from_u32(v) {
                Some(c) => {
                    proof {
                        vstd::utf8::char_u32_cast(c, v);
                    }
                    c
                },
                None => vstd::pervasive::unreached(),
            }
        }
    } else {
        let b = s[i] as u32;
        let b1 = s[i + 1] as u32;
        let b2 = s[i + 2] as u32;
        let b3 = s[i + 3] as u32;
        let v = ((b & 0x07) << 18) | ((b1 & 0x3F) << 12) | ((b2 & 0x3F) << 6) | (b3 & 0x3F);
        if v > 0x10FFFF || (0xD800 <= v && v < 0xE000) {
            '\u{FFFD}'
        } else {
            match char::from_u32(v) {
                Some(c) => {
                    proof {
                        vstd::utf8::char_u32_cast(c, v);
                    }
                    c
                },
                None => vstd::pervasive::unreached(),
            }
        }
    }
}

/// Cell width of one character.
fn char_width_exec(c: char) -> (r: usize)
    ensures
        r == char_width(c),
{
    if c == '\t' {
        4
    } else if c == '\r' {
        0
    } else {
        char_cell_width(c)
    }
}

fn exec_max_fit(s: &[u8], w: usize) -> (r: usize)
    ensures
        r == max_fit(s@, w as nat),
        r <= s@.len(),
{
    let n = s.len();
    let mut i: usize = 0;
    let mut rem: usize = w;
    while i < n
        invariant
            n == s@.len(),
            i <= n,
            max_fit(s@, w as nat) == max_fit_from(s@, rem as int, i as int),
        decreases n - i,
    {
        let c = scalar_at_exec(s, i);
        let cw = char_width_exec(c);
        if cw > rem {
            return i;
        }
        rem = rem - cw;
        let cl = char_len_at_exec(s, i);
        i += cl;
    }
    i
}

fn exec_first_cut(s: &[u8], w: usize) -> (r: usize)
    requires
        s@.len() >= 1,
    ensures
        r == cut_at(s@, w as nat),
{
    let n = s.len();
    let fit = exec_max_fit(s, w);
    if fit >= n {
        return n;
    }
    let mut p: usize = fit;
    while p > 0
        invariant_except_break
            p <= fit < n,
            n == s@.len(),
            last_break_before(s@, fit as int) == last_break_before(s@, p as int),
        ensures
            p <= fit,
            n == s@.len(),
            p > 0 ==> last_break_before(s@, fit as int) == p,
            p == 0 ==> last_break_before(s@, fit as int) == 0,
        decreases p,
    {
        if s[p - 1] == 32 || s[p - 1] == 9 {
            break ;
        }
        p -= 1;
    }
    if p > 0 {
        p
    } else if fit > 0 {
        fit
    } else {
        char_len_at_exec(s, 0)
    }
}

/// The sub-line byte ranges of `s` at width `w`: consecutive half-open
/// ranges that cover the line exactly.
pub fn wrap_line(s: &[u8], w: usize) -> (r: Vec<(usize, usize)>)
    ensures
        r@ == spec_wrap(s@, w as nat),
{
    let n = s.len();
    let mut out: Vec<(usize, usize)> = Vec::new();
    if n == 0 {
        out.push((0, 0));
        proof {
            assert(out@ =~= spec_wrap(s@, w as nat));
        }
        return out;
    }
    let mut pos: usize = 0;
    proof {
        assert(Seq::<(usize, usize)>::empty() + wrap_from(s@, w as nat, 0) =~= wrap_from(
            s@,
            w as nat,
            0,
        ));
    }
    while pos < n
        invariant
            n == s@.len(),
            pos <= n,
            out@ + wrap_from(s@, w as nat, pos as int) == wrap_from(s@, w as nat, 0),
        decreases n - pos,
    {
        let suf = &s[pos..n];
        proof {
            assert(suf@ =~= s@.skip(pos as int));
            lemma_cut_at_bounds(s@.skip(pos as int), w as nat);
        }
        let c = exec_first_cut(suf, w);
        let ghost old_out = out@;
        out.push((pos, pos + c));
        proof {
            let wn = w as nat;
            let head = seq![(pos as usize, (pos + c) as usize)];
            assert(wrap_from(s@, wn, pos as int) == head + wrap_from(s@, wn, pos + c));
            assert(out@ =~= old_out.push((pos, (pos + c) as usize)));
            assert(out@ + wrap_from(s@, wn, pos + c) =~= old_out + wrap_from(s@, wn, pos as int));
        }
        pos += c;
    }
    proof {
        assert(out@ + wrap_from(s@, w as nat, pos as int) =~= out@);
    }
    out
}

} // verus!
