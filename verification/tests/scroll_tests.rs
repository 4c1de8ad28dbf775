use pager::command::Command;
use pager::command::CommandType;
use pager::command::SearchPattern;
use pager::controller::ControlState;
use pager::controller::Effect;
use pager::controller::execute_command;
use pager::controller::ingest_line;
use pager::new_scroll::HighlightKind;
use pager::new_scroll::InstructionQueue;
use pager::new_scroll::PageScrollState;
use pager::pages::Pages;

fn store_of(lines: &[&str]) -> Pages {
    let mut pages = Pages::new(4096, 4);
    for l in lines {
        pages.add_line(l.as_bytes());
    }
    pages
}

fn row_texts(state: &PageScrollState, pages: &Pages) -> Vec<String> {
    // rows come bottom row first; render top-to-bottom for comparison
    let rows = state.get_visible_rows(pages);
    let mut out: Vec<String> = Vec::new();
    for r in rows.iter().rev() {
        let line = pages.get_line(r.idx).unwrap();
        out.push(String::from_utf8(line[r.start..r.end].to_vec()).unwrap());
    }
    out
}

#[test]
fn autoscroll_follows_tail() {
    let pages = store_of(&["L0", "L1", "L2", "L3", "L4", "L5", "L6", "L7", "L8", "L9"]);
    let mut state = PageScrollState::new();
    state.set_size(&pages, 20, 3);
    assert!(state.auto_scroll());
    assert_eq!(row_texts(&state, &pages), vec!["L7", "L8", "L9"]);
}

#[test]
fn scroll_up_then_down_returns_to_tail() {
    let pages = store_of(&["L0", "L1", "L2", "L3", "L4", "L5", "L6", "L7", "L8", "L9"]);
    let mut state = PageScrollState::new();
    state.set_size(&pages, 20, 3);
    state.scroll_up(&pages);
    assert!(!state.auto_scroll());
    assert_eq!(row_texts(&state, &pages), vec!["L6", "L7", "L8"]);
    state.scroll_down(&pages);
    assert!(state.auto_scroll());
    assert_eq!(row_texts(&state, &pages), vec!["L7", "L8", "L9"]);
}

#[test]
fn filter_hides_non_matching_lines() {
    let pages = store_of(&["apple", "banana", "apricot", "blueberry", "avocado"]);
    let mut state = PageScrollState::new();
    state.set_size(&pages, 20, 3);
    state.set_filter(Some(Command::SearchFor(SearchPattern::Substring("a".to_string()))));
    // every word here contains an "a" except "blueberry"; the viewport
    // shows the last three matching lines
    let rows = row_texts(&state, &pages);
    assert_eq!(rows, vec!["banana", "apricot", "avocado"]);
    state.set_filter(Some(Command::SearchFor(SearchPattern::Substring("ap".to_string()))));
    let rows = row_texts(&state, &pages);
    assert_eq!(rows, vec!["apple", "apricot"]);
}

#[test]
fn search_highlights_last_match_under_autoscroll() {
    let mut pages = store_of(&["x1", "hit", "x2", "hit", "x3", "x4"]);
    let mut state = PageScrollState::new();
    state.set_size(&pages, 10, 6);
    let mut ctrl = ControlState::new();
    ctrl.cmd_builder.cmd_type = CommandType::Search;
    ctrl.cmd_builder.cmd = "hit".to_string();
    let eff = execute_command(&mut ctrl, &mut state, &mut pages);
    assert_eq!(eff, Effect::Nothing);
    // autoscroll stays on; the cursor moves to the last match
    assert!(state.auto_scroll());
    assert_eq!(state.cursor_idx(), Some(3));
    assert_eq!(state.matches().len(), 2);
    assert_eq!(state.matches().rank_at(3), (2, 2));
    assert_eq!(state.matches().rank_at(1), (1, 2));
    assert_eq!(state.matches().next_after(1), Some(3));
    assert_eq!(state.matches().prev_before(3), Some(1));
    // all six lines fit the viewport
    assert_eq!(row_texts(&state, &pages), vec!["x1", "hit", "x2", "hit", "x3", "x4"]);
    // the cursor line's rows carry the search highlight
    let rows = state.get_visible_rows(&pages);
    let hit_row = rows.iter().find(|r| r.idx == 3).unwrap();
    assert_eq!(hit_row.highlight, Some((0, 3, HighlightKind::SearchMatch)));
}

#[test]
fn jump_out_of_range_is_a_no_op_with_an_error() {
    let mut pages = store_of(&["a", "b", "c", "d", "e"]);
    let mut state = PageScrollState::new();
    state.set_size(&pages, 10, 3);
    state.scroll_up(&pages);
    let bottom_before = state.bottom_line_idx();
    let mut ctrl = ControlState::new();
    ctrl.cmd_builder.cmd_type = CommandType::JumpTo;
    ctrl.cmd_builder.cmd = "99".to_string();
    let eff = execute_command(&mut ctrl, &mut state, &mut pages);
    assert_eq!(eff, Effect::InvalidJump);
    assert_eq!(state.bottom_line_idx(), bottom_before);
    // an unparseable number is also rejected
    ctrl.cmd_builder.cmd_type = CommandType::JumpTo;
    ctrl.cmd_builder.cmd = "4x".to_string();
    let eff = execute_command(&mut ctrl, &mut state, &mut pages);
    assert_eq!(eff, Effect::InvalidJump);
}

#[test]
fn rejected_regex_leaves_the_view_unchanged() {
    let mut pages = store_of(&["a", "b"]);
    let mut state = PageScrollState::new();
    state.set_size(&pages, 10, 2);
    let mut ctrl = ControlState::new();
    ctrl.cmd_builder.cmd_type = CommandType::Regex;
    ctrl.cmd_builder.cmd = "a(".to_string();
    let eff = execute_command(&mut ctrl, &mut state, &mut pages);
    assert_eq!(eff, Effect::InvalidPattern);
    assert!(state.search_query_ref().is_none());
    assert_eq!(state.matches().len(), 0);
}

#[test]
fn jump_to_bounds_succeed() {
    let pages = store_of(&["a", "b", "c", "d", "e"]);
    let mut state = PageScrollState::new();
    state.set_size(&pages, 10, 2);
    assert!(state.jump_to(&pages, 0));
    assert_eq!(state.cursor_idx(), Some(0));
    assert!(state.jump_to(&pages, 4));
    assert_eq!(state.cursor_idx(), Some(4));
    assert!(!state.jump_to(&pages, 5));
}

#[test]
fn toggling_line_numbers_twice_is_identity() {
    let pages = store_of(&["a", "b"]);
    let mut state = PageScrollState::new();
    state.set_size(&pages, 10, 2);
    let before = state.show_line_numbers();
    state.toggle_line_numbers();
    assert_eq!(state.show_line_numbers(), !before);
    state.toggle_line_numbers();
    assert_eq!(state.show_line_numbers(), before);
}

#[test]
fn down_then_up_restores_the_anchor() {
    let pages = store_of(&["a", "b", "c", "d", "e", "f", "g", "h"]);
    let mut state = PageScrollState::new();
    state.set_size(&pages, 10, 3);
    assert!(state.jump_to(&pages, 3));
    let bottom = state.bottom_line_idx();
    let skip = state.bottom_line_wrapped_skip();
    state.scroll_down(&pages);
    state.scroll_down(&pages);
    state.scroll_up(&pages);
    state.scroll_up(&pages);
    assert_eq!(state.bottom_line_idx(), bottom);
    assert_eq!(state.bottom_line_wrapped_skip(), skip);
}

#[test]
fn degenerate_viewports_render_nothing() {
    let pages = store_of(&["a", "b", "c"]);
    let mut state = PageScrollState::new();
    state.set_size(&pages, 10, 0);
    assert!(state.get_visible_rows(&pages).is_empty());
    state.set_size(&pages, 0, 5);
    assert!(state.get_visible_rows(&pages).is_empty());
    // a gutter that eats the whole width leaves no cell
    state.set_size(&pages, 6, 5);
    state.toggle_line_numbers();
    assert!(state.get_visible_rows(&pages).is_empty());
}

#[test]
fn viewport_fills_with_wrapped_sublines() {
    let pages = store_of(&["aaaa bbbb", "cccc dddd"]);
    let mut state = PageScrollState::new();
    state.set_size(&pages, 4, 4);
    // each line wraps into three sub-lines; four rows fill the viewport
    let rows = state.get_visible_rows(&pages);
    assert_eq!(rows.len(), 4);
    // bottom row is the last line's last sub-line
    assert_eq!(rows[0].idx, 1);
    assert_eq!((rows[0].start, rows[0].end), (5, 9));
    // with room for everything, all six sub-lines appear
    state.set_size(&pages, 4, 10);
    assert_eq!(state.get_visible_rows(&pages).len(), 6);
}

#[test]
fn empty_store_renders_nothing() {
    let pages = Pages::new(64, 2);
    let mut state = PageScrollState::new();
    state.set_size(&pages, 10, 5);
    assert!(state.get_visible_rows(&pages).is_empty());
}

#[test]
fn appends_maintain_the_match_index() {
    let mut pages = store_of(&["hit one"]);
    let mut state = PageScrollState::new();
    state.set_size(&pages, 40, 5);
    let mut ctrl = ControlState::new();
    ctrl.cmd_builder.cmd_type = CommandType::Search;
    ctrl.cmd_builder.cmd = "hit".to_string();
    execute_command(&mut ctrl, &mut state, &mut pages);
    assert_eq!(state.matches().len(), 1);
    ingest_line(&mut state, &mut pages, b"miss");
    ingest_line(&mut state, &mut pages, b"hit two");
    assert_eq!(state.matches().len(), 2);
    assert_eq!(state.matches().next_after(0), Some(2));
    // under autoscroll the cursor follows the newest match
    assert_eq!(state.cursor_idx(), Some(2));
}

#[test]
fn eviction_drops_match_entries() {
    let mut pages = Pages::new(8, 2);
    let mut state = PageScrollState::new();
    state.set_size(&pages, 40, 5);
    let mut ctrl = ControlState::new();
    ctrl.cmd_builder.cmd_type = CommandType::Search;
    ctrl.cmd_builder.cmd = "hit".to_string();
    execute_command(&mut ctrl, &mut state, &mut pages);
    for _ in 0..6 {
        ingest_line(&mut state, &mut pages, b"hit-abc");
    }
    // only resident lines may stay in the index
    let first = pages.first_index();
    assert!(first > 0);
    assert_eq!(state.matches().len(), (pages.lines_count() - first) as usize);
    assert_eq!(state.matches().prev_before(first), None);
}

#[test]
fn apply_queue_dispatches() {
    let pages = store_of(&["a", "b", "c", "d"]);
    let mut state = PageScrollState::new();
    assert!(state.apply_queue(&pages, InstructionQueue::Resize { width: 10, height: 2 }));
    assert!(!state.apply_queue(&pages, InstructionQueue::Idle));
    assert!(state.apply_queue(&pages, InstructionQueue::Up));
    assert!(!state.auto_scroll());
    assert!(state.apply_queue(&pages, InstructionQueue::Down));
    assert!(state.apply_queue(&pages, InstructionQueue::JumpTo(1)));
    assert!(!state.apply_queue(&pages, InstructionQueue::JumpTo(9)));
}
