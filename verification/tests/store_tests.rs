use pager::lines;
use pager::pages::Page;
use pager::pages::PageLineIterator;
use pager::pages::PageSearchIterator;
use pager::pages::Pages;

#[test]
fn test_pages() {
    let mut pages = lines::Pages::new(10, 4);
    for i in 0..50 {
        pages.add_line(i.to_string());
    }

    for i in 0..50 {
        let line = pages.get_line(i).unwrap();

        assert!(i.to_string() == line);
    }

    let mut iter = lines::SearchIterator::new(pages, "4", 0);

    let (line_no, line) = iter.next().unwrap();
    println!("{} {} {}", line_no, iter.current_line_number, line);
}

#[test]
fn search_iterator_finds_in_order() {
    let mut pages = lines::Pages::new(3, 4);
    pages.add_line("alpha".to_string());
    pages.add_line("beta".to_string());
    pages.add_line("gamma".to_string());
    pages.add_line("alphabet".to_string());

    let mut iter = lines::SearchIterator::new(pages, "alpha", 0);
    let (n1, l1) = iter.next().unwrap();
    assert_eq!(n1, 0);
    assert_eq!(l1, "alpha");
    let (n2, l2) = iter.next().unwrap();
    assert_eq!(n2, 3);
    assert_eq!(l2, "alphabet");
    assert!(iter.next().is_none());
}

#[test]
fn page_recycling_advances_first_index() {
    let mut pages = Pages::new(10, 2);
    assert_eq!(pages.add_line(b"page1-full"), 0);
    assert_eq!(pages.add_line(b"page2-full"), 1);
    assert_eq!(pages.add_line(b"page3-new"), 2);

    assert_eq!(pages.first_index(), 1);
    assert_eq!(pages.lines_count(), 3);
    assert!(pages.get_line(0).is_none());
    assert_eq!(pages.get_line(1).unwrap(), b"page2-full");
    assert_eq!(pages.get_line(2).unwrap(), b"page3-new");
}

#[test]
fn count_equals_appends_and_eviction_is_whole_page() {
    let mut pages = Pages::new(4, 2);
    for i in 0..6 {
        let line = [b'a' + i as u8; 2];
        pages.add_line(&line);
    }
    // every append counts, evicted or not
    assert_eq!(pages.lines_count(), 6);
    // each page holds two 2-byte lines; eviction advances by exactly 2
    assert_eq!(pages.first_index() % 2, 0);
    for i in 0..pages.first_index() {
        assert!(pages.get_line(i).is_none());
    }
    for i in pages.first_index()..pages.lines_count() {
        let expect = [b'a' + i as u8; 2];
        assert_eq!(pages.get_line(i).unwrap(), expect);
    }
}

#[test]
fn oversized_line_still_stored() {
    let mut pages = Pages::new(4, 2);
    pages.add_line(b"this line is far longer than one page");
    assert_eq!(pages.lines_count(), 1);
    assert_eq!(
        pages.get_line(0).unwrap(),
        b"this line is far longer than one page"
    );
}

#[test]
fn find_next_and_prev_scan_residents() {
    let mut pages = Pages::new(100, 4);
    pages.add_line(b"x1");
    pages.add_line(b"hit");
    pages.add_line(b"x2");
    pages.add_line(b"hit");
    let cmd = pager::command::Command::SearchFor(pager::command::SearchPattern::Substring(
        "hit".to_string(),
    ));
    assert_eq!(pages.find_next(&cmd, 0), Some((1, (0, 3))));
    assert_eq!(pages.find_next(&cmd, 1), Some((3, (0, 3))));
    assert_eq!(pages.find_next(&cmd, 3), None);
    assert_eq!(pages.find_prev(&cmd, 4), Some((3, (0, 3))));
    assert_eq!(pages.find_prev(&cmd, 3), Some((1, (0, 3))));
    assert_eq!(pages.find_prev(&cmd, 1), None);
    assert_eq!(pages.find_all_matches(&cmd), vec![1, 3]);
}

#[test]
fn store_iterator_walks_residents_both_ways() {
    let mut pages = Pages::new(10, 2);
    pages.add_line(b"page1-full");
    pages.add_line(b"page2-full");
    pages.add_line(b"page3-new");
    // line 0 was evicted; the forward walk starts at the first resident
    let mut iter = pages.get_lines_iter();
    assert_eq!(iter.next().unwrap(), b"page2-full");
    assert_eq!(iter.next().unwrap(), b"page3-new");
    assert!(iter.next().is_none());
    // the backward walk yields the residents newest-first
    let mut back = pages.get_lines_iter();
    assert_eq!(back.next_back().unwrap(), b"page3-new");
    assert_eq!(back.next_back().unwrap(), b"page2-full");
    assert!(back.next_back().is_none());
}

#[test]
fn test_page_iterator() {
    let mut page = Page::new();
    page.add_line(b"hello world 0");
    page.add_line(b" world hello world 1");
    page.add_line(b"world hello world 2");
    page.add_line(b"foo hello world 3");
    page.add_line(b"");
    page.add_line(b"");

    let mut rev = PageLineIterator::new(&page);
    assert_eq!(rev.next_back().unwrap(), b"");
    assert_eq!(rev.next_back().unwrap(), b"");
    assert_eq!(rev.next_back().unwrap(), b"foo hello world 3");
    assert_eq!(rev.next_back().unwrap(), b"world hello world 2");
    assert_eq!(rev.next_back().unwrap(), b" world hello world 1");
    assert_eq!(rev.next_back().unwrap(), b"hello world 0");
    assert!(rev.next_back().is_none());

    let mut iter = PageLineIterator::new(&page);
    assert_eq!(iter.next().unwrap(), b"hello world 0");
    assert_eq!(iter.current_idx(), 0);
    assert_eq!(iter.len(), 6);

    let search_str = b"hello";

    let mut searcher = PageSearchIterator::new(&page, search_str);
    let first = searcher.next().unwrap();
    assert_eq!(first.index(), 0);
    assert_eq!(first.substr_start(), 0);
    assert_eq!(first.as_str(&page), b"hello world 0");
    let second = searcher.next().unwrap();
    assert_eq!(second.index(), 1);
    assert_eq!(second.substr_start(), 7);

    let mut backward = PageSearchIterator::new(&page, search_str);
    let last = backward.next_back().unwrap();
    assert_eq!(last.index(), 3);
    assert_eq!(last.substr_start(), 4);
}
