//! User-level actions that drive the controller.

use vstd::prelude::*;

use crate::command::CommandType;

verus! {

/// One step the controller can take for a key press or a frame event.
#[derive(Debug, Clone, Copy, PartialEq, Eq, Structural)]
pub enum Action {
    /// Leave the program.
    Quit,
    /// The terminal was resized.
    Resize(u16, u16),
    /// A frame passed without input.
    Tick,
    /// Open or close the space menu.
    ToggleSpaceMenu,
    /// Drop the pending command, filter, search and cursor.
    ClearCommand,
    /// Open a command line of the given kind.
    Command(CommandType),
    /// Append a character to the command line.
    TypeCommand(char),
    /// Remove the last character of the command line.
    DeleteBackCommand,
    /// Run the command line.
    ExecuteCommand,
    /// Move the view one rendered sub-line toward the top.
    ScrollUp,
    /// Move the view one rendered sub-line toward the bottom.
    ScrollDown,
    /// Move the cursor to the next search match.
    SearchNext,
    /// Move the cursor to the previous search match.
    SearchPrev,
    /// Forward a typed character to the child process.
    SendToChild(char),
    /// Show or hide the line-number gutter.
    ToggleLineNumbers,
    /// Pin or release the view at the tail.
    ToggleAutoscroll,
}

} // verus!
