use pager::wrap::wrap_line;

fn assert_covers(s: &[u8], w: usize) {
    // the ranges partition [0, len) exactly
    let r = wrap_line(s, w);
    assert!(!r.is_empty());
    assert_eq!(r[0].0, 0);
    assert_eq!(r[r.len() - 1].1, s.len());
    for k in 0..r.len() - 1 {
        assert_eq!(r[k].1, r[k + 1].0);
    }
    if !s.is_empty() {
        for k in 0..r.len() {
            assert!(r[k].0 < r[k].1);
        }
    }
}

#[test]
fn wrap_breaks_after_a_blank() {
    assert_eq!(wrap_line(b"ab cd", 3), vec![(0, 3), (3, 5)]);
}

#[test]
fn wrap_breaks_long_words_at_the_width() {
    assert_eq!(wrap_line(b"abcdef", 4), vec![(0, 4), (4, 6)]);
    assert_eq!(wrap_line(b"abcdef", 1), vec![(0, 1), (1, 2), (2, 3), (3, 4), (4, 5), (5, 6)]);
}

#[test]
fn wrap_keeps_a_fitting_line_whole() {
    assert_eq!(wrap_line(b"hello", 10), vec![(0, 5)]);
}

#[test]
fn empty_line_occupies_one_blank_row() {
    assert_eq!(wrap_line(b"", 7), vec![(0, 0)]);
}

#[test]
fn wrap_makes_progress_even_at_width_zero() {
    assert_eq!(wrap_line(b"abc", 0), vec![(0, 1), (1, 2), (2, 3)]);
}

#[test]
fn ranges_cover_the_line_exactly() {
    assert_covers(b"hello world this is a fairly long line of text", 16);
    assert_covers(b"hello world this is a fairly long line of text", 1);
    assert_covers(b"short", 80);
    assert_covers(b"", 3);
    assert_covers(b"a\tb\rc", 4);
    assert_covers("héllo wörld".as_bytes(), 5);
}

#[test]
fn wide_characters_take_two_cells() {
    // three CJK characters of two cells each: two fit a width of four
    let s = "\u{65E5}\u{672C}\u{8A9E}";
    assert_eq!(wrap_line(s.as_bytes(), 4), vec![(0, 6), (6, 9)]);
    // at width two, one wide character per row
    assert_eq!(wrap_line(s.as_bytes(), 2), vec![(0, 3), (3, 6), (6, 9)]);
}

#[test]
fn zero_width_marks_stay_with_their_base() {
    // "a" plus a combining acute accent takes one cell
    let s = "a\u{0301}b";
    assert_eq!(wrap_line(s.as_bytes(), 1), vec![(0, 3), (3, 4)]);
}
