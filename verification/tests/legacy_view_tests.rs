use pager::TuiMode;
use pager::filter_scroll_view;
use pager::filter_scroll_view::get_searched_lines;
use pager::pages::Page;
use pager::rc_str::RcStr;
use pager::scroll_view::AppState;
use pager::scroll_view::ScrollState;
use pager::state::State;

#[test]
fn scroll_state_moves_and_pins() {
    let mut s = ScrollState::new();
    s.go_up();
    s.go_up();
    assert!(!s.auto_scroll());
    s.go_down();
    s.set_auto_scroll(true);
    assert!(s.auto_scroll());
    s.set_max_scroll_offset();
    assert!(s.auto_scroll());
}

#[test]
fn app_state_records_search_hits_on_append() {
    let page = Page::with_capacity(1024);
    let mut app = AppState::new(page, TuiMode::Normal);
    assert!(!app.is_in_search_mode());
    app.set_mode(TuiMode::Command);
    assert!(matches!(app.get_mode(), TuiMode::Command));
    app.add_line(b"nothing yet");
    // no search: nothing recorded, and the needle is empty
    assert_eq!(app.search_str(), "");

    let page = Page::with_capacity(1024);
    let mut app = AppState::new(page, TuiMode::Normal);
    // a command of `/` plus the needle switches search on
    app.set_command("/world".to_string());
    assert!(app.is_in_search_mode());
    assert_eq!(app.search_str(), "world");
    app.add_line(b"hello world");
    app.add_line(b"plain line");
    app.add_line(b"world again");
    app.reset_search();
}

#[test]
fn filter_state_buffers_content() {
    let mut st = filter_scroll_view::State::new(0, String::new(), TuiMode::Normal, true);
    st.add_content("hello\n");
    st.add_content("world");
    assert_eq!(st.get_content(), "hello\nworld");
    st.go_up();
    assert!(!st.auto_scroll());
    st.go_down();
    st.set_auto_scroll(true);
    assert!(st.auto_scroll());
    assert!(matches!(st.get_mode(), TuiMode::Normal));
}

#[test]
fn searched_lines_report_first_occurrences() {
    let content = "hello world\nplain\nworld of wonder";
    let found = get_searched_lines(content, "world");
    assert_eq!(found.len(), 2);
    assert_eq!(found[0].line(), "hello world");
    assert_eq!(found[1].line(), "world of wonder");
    // no occurrence anywhere: nothing comes back
    assert!(get_searched_lines(content, "absent").is_empty());
}

#[test]
fn rc_str_slices_share_text() {
    let s = RcStr::from_string("hello world".to_string());
    assert_eq!(s.as_str(), "hello world");
    let w = s.slice(6, 11);
    assert_eq!(w.as_str(), "world");
    let inner = w.slice(1, 3);
    assert_eq!(inner.as_str(), "or");
    assert!(s.checked_slice(6, 12).is_none());
    assert_eq!(s.checked_slice(0, 5).unwrap().as_str(), "hello");
}

#[test]
fn legacy_state_tracks_search_lines() {
    let mut st = State::new();
    st.set_search_string("err".to_string());
    st.add_line("all good");
    st.add_line("an error came");
    st.add_line("fine again");
    let pos = st.cursor_pos();
    let _ = pos;
}
