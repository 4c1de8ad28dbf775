//! The controller: translates keys into actions and actions into state
//! changes.
//!
//! The modal keymap is a pure table from the current mode and a key to
//! an action.  Applying an action mutates the command builder and the
//! scroll state machine; anything the program must do outside the view
//! engine (send a byte to the child, show an error banner) is handed
//! back as an effect.

use vstd::prelude::*;

use crate::action::Action;
use crate::command::Command;
use crate::command::CommandBuilder;
use crate::command::CommandType;
use crate::command::command_match;
use crate::new_scroll::PageScrollState;
use crate::pages::Pages;
use vstd::string::StrSliceExecFns;

verus! {

/// One key press, reduced to what the keymap distinguishes.
#[derive(Debug, Clone, Copy, PartialEq, Eq, Structural)]
pub enum KeyInput {
    /// The escape key.
    Esc,
    /// The backspace key.
    Backspace,
    /// The enter key.
    Enter,
    /// A printable character without modifiers.
    Char(char),
    /// A character pressed together with control.
    CtrlChar(char),
    /// Any other key.
    Other,
}

/// What the keymap yields for one key, given whether a command line is
/// open, whether the space menu is shown, and whether a search query is
/// active.
pub open spec fn spec_action(
    cmd_active: bool,
    space_menu: bool,
    has_search: bool,
    key: KeyInput,
) -> Option<Action> {
    match key {
        KeyInput::Esc => Some(Action::ClearCommand),
        KeyInput::Backspace => if cmd_active {
            Some(Action::DeleteBackCommand)
        } else {
            None
        },
        KeyInput::Enter => Some(Action::ExecuteCommand),
        KeyInput::CtrlChar(c) => if c == 'q' {
            Some(Action::Quit)
        } else {
            None
        },
        KeyInput::Char(c) => if cmd_active {
            Some(Action::TypeCommand(c))
        } else if space_menu {
            if c == 's' {
                Some(Action::Command(CommandType::Search))
            } else if c == 'r' {
                Some(Action::Command(CommandType::Regex))
            } else if c == 'i' {
                Some(Action::Command(CommandType::Ignore))
            } else if c == 'f' {
                Some(Action::Command(CommandType::Filter))
            } else if c == ':' {
                Some(Action::Command(CommandType::JumpTo))
            } else if c == 'n' {
                Some(Action::ToggleLineNumbers)
            } else if c == 'a' {
                Some(Action::ToggleAutoscroll)
            } else if c == 'c' {
                Some(Action::ClearCommand)
            } else if c == 'q' {
                Some(Action::Quit)
            } else if c == ' ' {
                Some(Action::ToggleSpaceMenu)
            } else {
                None
            }
        } else {
            if c == ' ' {
                Some(Action::ToggleSpaceMenu)
            } else if c == 'n' {
                if has_search {
                    Some(Action::SearchNext)
                } else {
                    None
                }
            } else if c == 'N' {
                if has_search {
                    Some(Action::SearchPrev)
                } else {
                    None
                }
            } else if c == 'j' {
                Some(Action::ScrollDown)
            } else if c == 'k' {
                Some(Action::ScrollUp)
            } else if c == 'a' {
                Some(Action::ToggleAutoscroll)
            } else {
                Some(Action::SendToChild(c))
            }
        },
        KeyInput::Other => None,
    }
}

/// Translates one key press into an action under the current mode.
pub fn get_action(cmd_active: bool, space_menu: bool, has_search: bool, key: KeyInput) -> (r:
    Option<Action>)
    ensures
        r == spec_action(cmd_active, space_menu, has_search, key),
{
    match key {
        KeyInput::Esc => Some(Action::ClearCommand),
        KeyInput::Backspace => if cmd_active {
            Some(Action::DeleteBackCommand)
        } else {
            None
        },
        KeyInput::Enter => Some(Action::ExecuteCommand),
        KeyInput::CtrlChar(c) => if c == 'q' {
            Some(Action::Quit)
        } else {
            None
        },
        KeyInput::Char(c) => if cmd_active {
            Some(Action::TypeCommand(c))
        } else if space_menu {
            match c {
                's' => Some(Action::Command(CommandType::Search)),
                'r' => Some(Action::Command(CommandType::Regex)),
                'i' => Some(Action::Command(CommandType::Ignore)),
                'f' => Some(Action::Command(CommandType::Filter)),
                ':' => Some(Action::Command(CommandType::JumpTo)),
                'n' => Some(Action::ToggleLineNumbers),
                'a' => Some(Action::ToggleAutoscroll),
                'c' => Some(Action::ClearCommand),
                'q' => Some(Action::Quit),
                ' ' => Some(Action::ToggleSpaceMenu),
                _ => None,
            }
        } else {
            match c {
                ' ' => Some(Action::ToggleSpaceMenu),
                'n' => if has_search {
                    Some(Action::SearchNext)
                } else {
                    None
                },
                'N' => if has_search {
                    Some(Action::SearchPrev)
                } else {
                    None
                },
                'j' => Some(Action::ScrollDown),
                'k' => Some(Action::ScrollUp),
                'a' => Some(Action::ToggleAutoscroll),
                _ => Some(Action::SendToChild(c)),
            }
        },
        KeyInput::Other => None,
    }
}

/// The character is a decimal digit.
pub open spec fn is_digit(c: char) -> bool {
    '0' <= c && c <= '9'
}

/// The numeric value of a decimal digit.
pub open spec fn digit_val(c: char) -> nat {
    (c as u32 - '0' as u32) as nat
}

/// Every character of the text is a decimal digit.
pub open spec fn all_digits(s: Seq<char>) -> bool {
    forall|i: int| 0 <= i < s.len() ==> is_digit(#[trigger] s[i])
}

/// The value of a decimal digit string.
pub open spec fn dec_val(s: Seq<char>) -> nat
    decreases s.len(),
{
    if s.len() == 0 {
        0
    } else {
        dec_val(s.drop_last()) * 10 + digit_val(s.last())
    }
}

/// A longer digit string never has a smaller value.
proof fn lemma_dec_val_prefix(s: Seq<char>, i: int)
    requires
        0 <= i <= s.len(),
    ensures
        dec_val(s.take(i)) <= dec_val(s),
    decreases s.len() - i,
{
    if i < s.len() {
        lemma_dec_val_prefix(s.drop_last(), i);
        assert(s.drop_last().take(i) =~= s.take(i));
    } else {
        assert(s.take(i) =~= s);
    }
}

/// The line number a command text stands for: defined exactly when the
/// whole text is decimal digits whose value fits the machine.
pub open spec fn spec_parse(s: Seq<char>) -> Option<usize> {
    if s.len() > 0 && all_digits(s) && dec_val(s) <= usize::MAX {
        Some(dec_val(s) as usize)
    } else {
        None
    }
}

/// Reads a line number from the command text.
pub fn parse_usize(s: &str) -> (r: Option<usize>)
    ensures
        r == spec_parse(s@),
{
    let n = s.unicode_len();
    if n == 0 {
        return None;
    }
    let mut acc: u128 = 0;
    let mut i: usize = 0;
    proof {
        assert(s@.take(0) =~= Seq::<char>::empty());
    }
    while i < n
        invariant
            n == s@.len(),
            i <= n,
            acc == dec_val(s@.take(i as int)),
            acc <= usize::MAX,
            all_digits(s@.take(i as int)),
        decreases n - i,
    {
        let c = s.get_char(i);
        if !(c >= '0' && c <= '9') {
            return None;
        }
        let d = (c as u32) - ('0' as u32);
        proof {
            assert(s@.take(i + 1).drop_last() =~= s@.take(i as int));
            assert(s@.take(i + 1).last() == s@[i as int]);
        }
        acc = acc * 10 + (d as u128);
        if acc > usize::MAX as u128 {
            proof {
                lemma_dec_val_prefix(s@, i + 1);
            }
            return None;
        }
        i += 1;
    }
    proof {
        assert(s@.take(n as int) =~= s@);
    }
    Some(acc as usize)
}

/// Controller state outside the view: the command line being edited,
/// whether the space menu is open, and whether the program should end.
pub struct ControlState {
    /// The command line being edited.
    pub cmd_builder: CommandBuilder,
    /// The space menu is shown.
    pub is_space_toggled: bool,
    /// The event loop should end.
    pub should_quit: bool,
}

/// What the program around the view engine must do after an action.
#[derive(Debug, Clone, Copy, PartialEq, Eq, Structural)]
pub enum Effect {
    /// Nothing.
    Nothing,
    /// Forward the character to the child's input.
    SendChar(char),
    /// Show an error banner: the jump target did not parse or lies
    /// outside the resident lines.
    InvalidJump,
    /// Show an error banner: the pattern was rejected.
    InvalidPattern,
}

impl ControlState {
    /// A fresh controller: no command line, no menu, running.
    pub fn new() -> (r: Self)
        ensures
            r.cmd_builder.cmd_type == CommandType::Inactive,
            r.cmd_builder.cmd@ == Seq::<char>::empty(),
            !r.is_space_toggled,
            !r.should_quit,
    {
        ControlState {
            cmd_builder: CommandBuilder::new(),
            is_space_toggled: false,
            should_quit: false,
        }
    }
}

/// The scroll state's search query and match index agree: the index
/// holds exactly the resident lines the query matches, and is empty
/// with no query.
pub open spec fn search_consistent(s: PageScrollState, p: Pages) -> bool {
    &&& s.spec_matches().sorted()
    &&& match s.spec_search() {
        Some(q) => s.spec_matches().consistent(p, q),
        None => forall|j: usize| !s.spec_matches().contains_idx(j),
    }
}

/// Appends one line from the producer and maintains the view and the
/// match index over it.
pub fn ingest_line(scroll: &mut PageScrollState, pages: &mut Pages, line: &[u8])
    requires
        old(pages).wf(),
        old(pages).spec_lines_count() < usize::MAX,
        search_consistent(*old(scroll), *old(pages)),
    ensures
        final(pages).wf(),
        final(pages).history() == old(pages).history().push(line@),
        final(scroll).inv(*final(pages)),
        search_consistent(*final(scroll), *final(pages)),
        final(scroll).spec_search() == old(scroll).spec_search(),
        final(scroll).spec_filter() == old(scroll).spec_filter(),
        old(scroll).spec_auto_scroll() ==> final(scroll).spec_auto_scroll(),
        final(scroll).spec_width() == old(scroll).spec_width(),
        final(scroll).spec_height() == old(scroll).spec_height(),
        final(scroll).spec_show_line_numbers() == old(scroll).spec_show_line_numbers(),
        final(scroll).spec_bottom() == old(scroll).spec_bottom(),
        final(scroll).spec_skip() == old(scroll).spec_skip(),
        final(scroll).spec_auto_scroll() == (old(scroll).spec_auto_scroll() || old(scroll).spec_bottom() < final(pages).spec_first_index() || old(scroll).spec_bottom()
            >= final(pages).spec_lines_count()),
        ({
            let auto2 = old(scroll).spec_auto_scroll() || old(scroll).spec_bottom() < final(pages).spec_first_index() || old(scroll).spec_bottom() >= final(pages).spec_lines_count();
            let hit = match old(scroll).spec_search() {
                Some(q) => command_match(q, line@) is Some,
                None => false,
            };
            let kept = match old(scroll).spec_cursor() {
                Some(ci) => if ci < final(pages).spec_first_index() || ci >= final(pages).spec_lines_count() {
                    None
                } else {
                    Some(ci)
                },
                None => None,
            };
            let dropped = old(scroll).spec_cursor() is Some && kept is None;
            &&& final(scroll).spec_cursor() == (if hit && auto2 {
                Some(old(pages).spec_lines_count() as usize)
            } else {
                kept
            })
            &&& final(scroll).spec_cursor_range() == (if dropped {
                None
            } else {
                old(scroll).spec_cursor_range()
            })
        }),
{
    pages.add_line(line);
    proof {
        match old(scroll).spec_search() {
            Some(q) => {
                assert forall|j: usize| old(scroll).spec_matches().contains_idx(j) implies j
                    < pages.spec_lines_count() - 1 && command_match(
                    q,
                    pages.history()[j as int],
                ) is Some by {
                    assert(old(pages).matches_at(q, j as int));
                    let h0 = old(pages).history();
                    assert(h0.push(line@)[j as int] == h0[j as int]);
                }
                assert forall|j: usize|
                    pages.spec_first_index() <= j < pages.spec_lines_count() - 1 && command_match(
                        q,
                        pages.history()[j as int],
                    ) is Some implies old(scroll).spec_matches().contains_idx(j) by {
                    let h0 = old(pages).history();
                    assert(h0.push(line@)[j as int] == h0[j as int]);
                    assert(old(pages).matches_at(q, j as int));
                }
            },
            None => {},
        }
    }
    scroll.on_append(pages);
    proof {
        match scroll.spec_search() {
            None => {
                assert forall|j: usize| !scroll.spec_matches().contains_idx(j) by {
                    if scroll.spec_matches().contains_idx(j) {
                        assert(old(scroll).spec_matches().contains_idx(j));
                    }
                }
            },
            Some(_) => {},
        }
    }
}

} // verus!

verus! {

/// What running a search command with query `q` leaves behind: the
/// query installed, the match index consistent with it, and the cursor
/// on the last match — re-anchoring there with its byte range when
/// autoscroll was off, only marking it when autoscroll keeps the view
/// at the tail.
pub open spec fn search_outcome(
    old_s: PageScrollState,
    new_s: PageScrollState,
    p: Pages,
    q: Command,
) -> bool {
    &&& new_s.spec_search() == Some(q)
    &&& new_s.spec_matches().consistent(p, q)
    &&& new_s.spec_filter() == old_s.spec_filter()
    &&& (match p.prev_match_before(q, p.spec_lines_count() as int) {
        Some(j) => {
            &&& new_s.spec_cursor() == Some(j as usize)
            &&& (old_s.spec_auto_scroll() ==> new_s.spec_auto_scroll() && new_s.spec_bottom()
                == old_s.spec_bottom() && new_s.spec_skip() == old_s.spec_skip())
            &&& (!old_s.spec_auto_scroll() ==> !new_s.spec_auto_scroll()
                && new_s.spec_cursor_range() == command_match(q, p.history()[j]))
        },
        None => new_s.spec_cursor() == old_s.spec_cursor(),
    })
}

/// Runs the finished command line: a jump parses its line number and
/// jumps, a search compiles its query, rebuilds the match index and
/// moves the cursor onto the last match (re-anchoring only when
/// autoscroll is off), and a filter gates rendering; rejected input
/// yields an error effect and leaves the prior view state unchanged.
pub fn execute_command(ctrl: &mut ControlState, scroll: &mut PageScrollState, pages: &Pages) -> (r:
    Effect)
    requires
        pages.wf(),
        old(scroll).inv(*pages),
        search_consistent(*old(scroll), *pages),
    ensures
        final(scroll).inv(*pages),
        search_consistent(*final(scroll), *pages),
        final(ctrl).cmd_builder.cmd_type == CommandType::Inactive,
        final(ctrl).is_space_toggled == old(ctrl).is_space_toggled,
        final(ctrl).should_quit == old(ctrl).should_quit,
        old(ctrl).cmd_builder.cmd_type == CommandType::JumpTo ==> {
            &&& (match spec_parse(old(ctrl).cmd_builder.cmd@) {
                Some(n) => {
                    &&& *final(scroll) == old(scroll).spec_jump(*pages, n as nat, None)
                    &&& (r == Effect::InvalidJump <==> !(pages.spec_first_index() <= n
                        < pages.spec_lines_count()))
                    &&& (!(pages.spec_first_index() <= n < pages.spec_lines_count()) ==> *final(scroll) == *old(scroll))
                    &&& (pages.spec_first_index() <= n < pages.spec_lines_count() ==> !final(scroll).spec_auto_scroll() && final(scroll).spec_cursor() == Some(n) && final(scroll).spec_cursor_range() is None)
                },
                None => *final(scroll) == *old(scroll) && r == Effect::InvalidJump,
            })
        },
        old(ctrl).cmd_builder.cmd_type == CommandType::Inactive ==> *final(scroll) == *old(scroll)
            && r == Effect::Nothing,
        old(ctrl).cmd_builder.cmd_type == CommandType::Search ==> search_outcome(
            *old(scroll),
            *final(scroll),
            *pages,
            Command::SearchFor(crate::command::SearchPattern::Substring(old(ctrl).cmd_builder.cmd)),
        ) && r == Effect::Nothing,
        old(ctrl).cmd_builder.cmd_type == CommandType::Ignore ==> search_outcome(
            *old(scroll),
            *final(scroll),
            *pages,
            Command::Ignore(crate::command::SearchPattern::Substring(old(ctrl).cmd_builder.cmd)),
        ) && r == Effect::Nothing,
        old(ctrl).cmd_builder.cmd_type == CommandType::Regex ==> (
        if crate::command::regex_ok(old(ctrl).cmd_builder.cmd@) {
            search_outcome(
                *old(scroll),
                *final(scroll),
                *pages,
                Command::SearchFor(crate::command::SearchPattern::Regex(old(ctrl).cmd_builder.cmd)),
            ) && r == Effect::Nothing
        } else {
            *final(scroll) == *old(scroll) && r == Effect::InvalidPattern
        }),
        old(ctrl).cmd_builder.cmd_type == CommandType::Filter ==> final(scroll).spec_filter()
            == Some(
            Command::SearchFor(
                crate::command::SearchPattern::Substring(old(ctrl).cmd_builder.cmd),
            ),
        ) && final(scroll).spec_cursor() is None && r == Effect::Nothing,
{
    let mut out: Effect = Effect::Nothing;
    match ctrl.cmd_builder.cmd_type {
        CommandType::JumpTo => {
            match parse_usize(ctrl.cmd_builder.cmd.as_str()) {
                Some(n) => {
                    let ok = scroll.jump_to(pages, n);
                    if !ok {
                        out = Effect::InvalidJump;
                    }
                },
                None => {
                    out = Effect::InvalidJump;
                },
            }
        },
        CommandType::Search | CommandType::Regex | CommandType::Ignore => {
            match ctrl.cmd_builder.build() {
                Some(cmd) => {
                    let matches = pages.find_all_matches(&cmd);
                    let last = pages.find_prev(&cmd, pages.lines_count());
                    scroll.set_matches(matches);
                    scroll.set_search_query(Some(cmd));
                    match last {
                        Some((last_idx, rng)) => {
                            if !scroll.auto_scroll() {
                                scroll.jump_to_with_range(pages, last_idx, Some(rng));
                            } else {
                                scroll.set_cursor(pages, Some(last_idx));
                            }
                        },
                        None => {},
                    }
                    proof {
                        let q = final(scroll).spec_search()->Some_0;
                        assert(final(scroll).spec_matches().consistent(*pages, q));
                    }
                },
                None => {
                    out = Effect::InvalidPattern;
                },
            }
        },
        CommandType::Filter => {
            match ctrl.cmd_builder.build() {
                Some(cmd) => {
                    scroll.set_filter(Some(cmd));
                },
                None => {},
            }
            scroll.set_cursor(pages, None);
        },
        CommandType::Inactive => {},
    }
    ctrl.cmd_builder.clear();
    out
}

/// Applies one action to the controller and the view.
pub fn update(
    ctrl: &mut ControlState,
    scroll: &mut PageScrollState,
    pages: &Pages,
    action: Action,
) -> (r: Effect)
    requires
        pages.wf(),
        old(scroll).inv(*pages),
        search_consistent(*old(scroll), *pages),
    ensures
        final(scroll).inv(*pages),
        search_consistent(*final(scroll), *pages),
        action == Action::Quit ==> final(ctrl).should_quit && *final(scroll) == *old(scroll),
        action == Action::ScrollUp ==> *final(scroll) == old(scroll).spec_scroll_up(*pages)
            && *final(ctrl) == *old(ctrl),
        action == Action::ScrollDown ==> *final(scroll) == old(scroll).spec_scroll_down(*pages)
            && *final(ctrl) == *old(ctrl),
        action == Action::ScrollDown && old(scroll).spec_auto_scroll() ==> *final(scroll) == *old(scroll),
        action == Action::ToggleLineNumbers ==> *final(scroll) == old(scroll)
            .spec_toggle_line_numbers() && final(ctrl).cmd_builder == old(ctrl).cmd_builder
            && final(ctrl).should_quit == old(ctrl).should_quit && !final(ctrl).is_space_toggled,
        action == Action::ToggleAutoscroll ==> *final(scroll) == (if old(scroll).spec_auto_scroll() {
            if pages.spec_lines_count() > pages.spec_first_index() {
                old(scroll).anchor_tail(*pages)
            } else {
                *old(scroll)
            }
        } else {
            old(scroll).with_auto(true)
        }) && !final(ctrl).is_space_toggled,
        action == Action::ToggleSpaceMenu ==> final(ctrl).is_space_toggled != old(ctrl)
            .is_space_toggled && *final(scroll) == *old(scroll),
        action == Action::ClearCommand ==> {
            &&& final(ctrl).cmd_builder.cmd_type == CommandType::Inactive
            &&& final(scroll).spec_filter() is None
            &&& final(scroll).spec_search() is None
            &&& final(scroll).spec_cursor() is None
            &&& !final(ctrl).is_space_toggled
        },
        (action matches Action::TypeCommand(c)) ==> final(ctrl).cmd_builder.cmd@ == old(ctrl)
            .cmd_builder.cmd@.push(action->TypeCommand_0) && *final(scroll) == *old(scroll),
        action == Action::DeleteBackCommand ==> final(ctrl).cmd_builder.cmd@ == (if old(ctrl)
            .cmd_builder.cmd@.len() == 0 {
            old(ctrl).cmd_builder.cmd@
        } else {
            old(ctrl).cmd_builder.cmd@.drop_last()
        }) && *final(scroll) == *old(scroll),
        (action matches Action::Command(t)) ==> final(ctrl).cmd_builder.cmd_type
            == action->Command_0 && final(ctrl).cmd_builder.cmd@.len() == 0 && !final(ctrl)
            .is_space_toggled,
        (action matches Action::SendToChild(c)) ==> r == Effect::SendChar(action->SendToChild_0)
            && *final(scroll) == *old(scroll) && *final(ctrl) == *old(ctrl),
        (action matches Action::Resize(w, h)) ==> final(scroll).spec_width()
            == action->Resize_0 as nat && final(scroll).spec_height() == action->Resize_1 as nat,
        action == Action::Tick ==> *final(scroll) == *old(scroll) && *final(ctrl) == *old(ctrl),
        action == Action::ExecuteCommand ==> final(ctrl).cmd_builder.cmd_type
            == CommandType::Inactive,
        action == Action::SearchNext || action == Action::SearchPrev ==> *final(ctrl) == *old(
            ctrl,
        ) && final(scroll).spec_search() == old(scroll).spec_search() && final(scroll).spec_filter()
            == old(scroll).spec_filter(),
        action == Action::SearchNext ==> (match old(scroll).spec_search() {
            Some(q) => ({
                let start: int = (match old(scroll).spec_cursor() {
                    Some(ci) => ci as int,
                    None => old(scroll).spec_bottom() as int,
                });
                match pages.next_match_after(q, start) {
                    Some(j) => *final(scroll) == old(scroll).spec_jump(
                        *pages,
                        j as nat,
                        command_match(q, pages.history()[j]),
                    ),
                    None => *final(scroll) == *old(scroll),
                }
            }),
            None => *final(scroll) == *old(scroll),
        }),
        action == Action::SearchPrev ==> (match old(scroll).spec_search() {
            Some(q) => ({
                let start: int = (match old(scroll).spec_cursor() {
                    Some(ci) => ci as int,
                    None => old(scroll).spec_bottom() as int,
                });
                match pages.prev_match_before(q, start) {
                    Some(j) => *final(scroll) == old(scroll).spec_jump(
                        *pages,
                        j as nat,
                        command_match(q, pages.history()[j]),
                    ),
                    None => *final(scroll) == *old(scroll),
                }
            }),
            None => *final(scroll) == *old(scroll),
        }),
{
    match action {
        Action::Quit => {
            ctrl.should_quit = true;
            Effect::Nothing
        },
        Action::Resize(w, h) => {
            scroll.set_size(pages, w as usize, h as usize);
            Effect::Nothing
        },
        Action::Tick => Effect::Nothing,
        Action::ToggleSpaceMenu => {
            ctrl.is_space_toggled = !ctrl.is_space_toggled;
            Effect::Nothing
        },
        Action::ClearCommand => {
            ctrl.cmd_builder.clear();
            ctrl.is_space_toggled = false;
            scroll.set_filter(None);
            scroll.set_search_query(None);
            let no_entries: Vec<usize> = Vec::new();
            scroll.set_matches(no_entries);
            scroll.set_cursor(pages, None);
            proof {
                assert(scroll.spec_matches().entries_seq().len() == 0);
                assert forall|j: usize| !scroll.spec_matches().contains_idx(j) by {}
            }
            Effect::Nothing
        },
        Action::Command(t) => {
            ctrl.is_space_toggled = false;
            ctrl.cmd_builder.cmd_type = t;
            ctrl.cmd_builder.cmd = String::new();
            scroll.set_cursor(pages, None);
            Effect::Nothing
        },
        Action::TypeCommand(c) => {
            ctrl.cmd_builder.cmd.push(c);
            Effect::Nothing
        },
        Action::DeleteBackCommand => {
            ctrl.cmd_builder.cmd.pop();
            Effect::Nothing
        },
        Action::ExecuteCommand => execute_command(ctrl, scroll, pages),
        Action::ScrollUp => {
            scroll.scroll_up(pages);
            Effect::Nothing
        },
        Action::ScrollDown => {
            scroll.scroll_down(pages);
            proof {
                if old(scroll).spec_auto_scroll() {
                    old(scroll).lemma_scroll_down_auto(*pages);
                }
            }
            Effect::Nothing
        },
        Action::ToggleLineNumbers => {
            scroll.toggle_line_numbers();
            ctrl.is_space_toggled = false;
            Effect::Nothing
        },
        Action::ToggleAutoscroll => {
            scroll.toggle_autoscroll(pages);
            ctrl.is_space_toggled = false;
            Effect::Nothing
        },
        Action::SearchNext => {
            let start = match scroll.cursor_idx() {
                Some(ci) => ci,
                None => scroll.bottom_line_idx(),
            };
            let found = match scroll.search_query_ref() {
                Some(q) => pages.find_next(q, start),
                None => None,
            };
            match found {
                Some((j, rng)) => {
                    scroll.jump_to_with_range(pages, j, Some(rng));
                },
                None => {},
            }
            Effect::Nothing
        },
        Action::SearchPrev => {
            let start = match scroll.cursor_idx() {
                Some(ci) => ci,
                None => scroll.bottom_line_idx(),
            };
            let found = match scroll.search_query_ref() {
                Some(q) => pages.find_prev(q, start),
                None => None,
            };
            match found {
                Some((j, rng)) => {
                    scroll.jump_to_with_range(pages, j, Some(rng));
                },
                None => {},
            }
            Effect::Nothing
        },
        Action::SendToChild(c) => Effect::SendChar(c),
    }
}

} // verus!
