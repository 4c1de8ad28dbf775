use pager::action::Action;
use pager::command::CommandType;
use pager::controller::ControlState;
use pager::controller::Effect;
use pager::controller::KeyInput;
use pager::controller::get_action;
use pager::controller::parse_usize;
use pager::controller::update;
use pager::new_scroll::PageScrollState;
use pager::pages::Pages;

fn store_of(lines: &[&str]) -> Pages {
    let mut pages = Pages::new(4096, 4);
    for l in lines {
        pages.add_line(l.as_bytes());
    }
    pages
}

#[test]
fn normal_mode_keymap() {
    assert_eq!(get_action(false, false, false, KeyInput::Char('j')), Some(Action::ScrollDown));
    assert_eq!(get_action(false, false, false, KeyInput::Char('k')), Some(Action::ScrollUp));
    assert_eq!(
        get_action(false, false, false, KeyInput::Char('a')),
        Some(Action::ToggleAutoscroll)
    );
    assert_eq!(
        get_action(false, false, false, KeyInput::Char(' ')),
        Some(Action::ToggleSpaceMenu)
    );
    assert_eq!(get_action(false, false, false, KeyInput::CtrlChar('q')), Some(Action::Quit));
    // next/prev only with an active search
    assert_eq!(get_action(false, false, false, KeyInput::Char('n')), None);
    assert_eq!(get_action(false, false, true, KeyInput::Char('n')), Some(Action::SearchNext));
    assert_eq!(get_action(false, false, true, KeyInput::Char('N')), Some(Action::SearchPrev));
    // any other printable goes to the child
    assert_eq!(
        get_action(false, false, false, KeyInput::Char('x')),
        Some(Action::SendToChild('x'))
    );
}

#[test]
fn space_menu_keymap() {
    assert_eq!(
        get_action(false, true, false, KeyInput::Char('s')),
        Some(Action::Command(CommandType::Search))
    );
    assert_eq!(
        get_action(false, true, false, KeyInput::Char('r')),
        Some(Action::Command(CommandType::Regex))
    );
    assert_eq!(
        get_action(false, true, false, KeyInput::Char('i')),
        Some(Action::Command(CommandType::Ignore))
    );
    assert_eq!(
        get_action(false, true, false, KeyInput::Char('f')),
        Some(Action::Command(CommandType::Filter))
    );
    assert_eq!(
        get_action(false, true, false, KeyInput::Char(':')),
        Some(Action::Command(CommandType::JumpTo))
    );
    assert_eq!(get_action(false, true, false, KeyInput::Char('n')), Some(Action::ToggleLineNumbers));
    assert_eq!(get_action(false, true, false, KeyInput::Char('c')), Some(Action::ClearCommand));
    assert_eq!(get_action(false, true, false, KeyInput::Char('q')), Some(Action::Quit));
    assert_eq!(get_action(false, true, false, KeyInput::Char('z')), None);
}

#[test]
fn command_mode_keymap() {
    assert_eq!(get_action(true, false, false, KeyInput::Char('j')), Some(Action::TypeCommand('j')));
    assert_eq!(get_action(true, false, false, KeyInput::Backspace), Some(Action::DeleteBackCommand));
    assert_eq!(get_action(false, false, false, KeyInput::Backspace), None);
    assert_eq!(get_action(true, false, false, KeyInput::Enter), Some(Action::ExecuteCommand));
    assert_eq!(get_action(true, false, false, KeyInput::Esc), Some(Action::ClearCommand));
}

#[test]
fn decimal_parse() {
    assert_eq!(parse_usize("0"), Some(0));
    assert_eq!(parse_usize("42"), Some(42));
    assert_eq!(parse_usize("007"), Some(7));
    assert_eq!(parse_usize(""), None);
    assert_eq!(parse_usize("4x"), None);
    assert_eq!(parse_usize("-3"), None);
    assert_eq!(parse_usize("99999999999999999999999999"), None);
}

#[test]
fn update_drives_the_state() {
    let pages = store_of(&["one", "two", "three"]);
    let mut ctrl = ControlState::new();
    let mut state = PageScrollState::new();
    update(&mut ctrl, &mut state, &pages, Action::Resize(20, 2));

    update(&mut ctrl, &mut state, &pages, Action::ToggleSpaceMenu);
    assert!(ctrl.is_space_toggled);
    update(&mut ctrl, &mut state, &pages, Action::Command(CommandType::Search));
    assert!(!ctrl.is_space_toggled);
    update(&mut ctrl, &mut state, &pages, Action::TypeCommand('t'));
    update(&mut ctrl, &mut state, &pages, Action::TypeCommand('w'));
    update(&mut ctrl, &mut state, &pages, Action::TypeCommand('x'));
    update(&mut ctrl, &mut state, &pages, Action::DeleteBackCommand);
    update(&mut ctrl, &mut state, &pages, Action::TypeCommand('o'));
    assert_eq!(ctrl.cmd_builder.cmd, "two");
    update(&mut ctrl, &mut state, &pages, Action::ExecuteCommand);
    assert_eq!(ctrl.cmd_builder.cmd, "");
    assert_eq!(state.cursor_idx(), Some(1));
    assert_eq!(state.matches().len(), 1);

    update(&mut ctrl, &mut state, &pages, Action::ClearCommand);
    assert_eq!(state.matches().len(), 0);
    assert_eq!(state.cursor_idx(), None);

    let eff = update(&mut ctrl, &mut state, &pages, Action::SendToChild('x'));
    assert_eq!(eff, Effect::SendChar('x'));

    update(&mut ctrl, &mut state, &pages, Action::Quit);
    assert!(ctrl.should_quit);
}

#[test]
fn search_next_and_prev_move_the_cursor() {
    let pages = store_of(&["hit", "miss", "hit", "miss", "hit"]);
    let mut ctrl = ControlState::new();
    let mut state = PageScrollState::new();
    update(&mut ctrl, &mut state, &pages, Action::Resize(20, 3));
    update(&mut ctrl, &mut state, &pages, Action::Command(CommandType::Search));
    for c in "hit".chars() {
        update(&mut ctrl, &mut state, &pages, Action::TypeCommand(c));
    }
    update(&mut ctrl, &mut state, &pages, Action::ExecuteCommand);
    assert_eq!(state.cursor_idx(), Some(4));
    update(&mut ctrl, &mut state, &pages, Action::SearchPrev);
    assert_eq!(state.cursor_idx(), Some(2));
    update(&mut ctrl, &mut state, &pages, Action::SearchPrev);
    assert_eq!(state.cursor_idx(), Some(0));
    update(&mut ctrl, &mut state, &pages, Action::SearchNext);
    assert_eq!(state.cursor_idx(), Some(2));
}

#[test]
fn toggle_autoscroll_snapshots_the_tail() {
    let pages = store_of(&["a", "b", "c"]);
    let mut ctrl = ControlState::new();
    let mut state = PageScrollState::new();
    update(&mut ctrl, &mut state, &pages, Action::Resize(20, 2));
    assert!(state.auto_scroll());
    update(&mut ctrl, &mut state, &pages, Action::ToggleAutoscroll);
    assert!(!state.auto_scroll());
    assert_eq!(state.bottom_line_idx(), 2);
    update(&mut ctrl, &mut state, &pages, Action::ToggleAutoscroll);
    assert!(state.auto_scroll());
}
