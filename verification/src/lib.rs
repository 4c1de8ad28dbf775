//! View engine for an interactive terminal pager.
//!
//! The library holds the logic of the pager: a bounded paged ring buffer of
//! text lines with monotonically increasing global indices, a matcher
//! protocol for search and filter queries, the sorted index of matching
//! lines, word wrapping with exact byte-range accounting, and the wrap-aware
//! scroll state machine that anchors the viewport.  Terminal I/O, the child
//! process supervisor and the widget painting live outside the library.

pub mod action;
pub mod command;
pub mod controller;
pub mod filter_scroll_view;
pub mod lines;
pub mod match_index;
pub mod new_scroll;
pub mod pages;
pub mod rc_str;
pub mod scroll_view;
pub mod state;
pub mod wrap;

use vstd::prelude::*;

verus! {

/// Interaction mode of the pager user interface.
#[derive(Debug, Copy, Clone, PartialEq, Eq, Structural)]
pub enum TuiMode {
    /// Keys scroll the view or open menus.
    Normal,
    /// Keys edit the pending command line.
    Command,
}

} // verus!
