//! The state machine behind a browser-hosted IDE shell: open tabs, the
//! collapsible side panel, the console's height, the tab context menu and the
//! in-memory file tree that backs them.
//!
//! Nothing here draws. Every transition is a function from the current state
//! and one event to the next state, with a contract over a mathematical model
//! of that state. The state itself lives in observable cells, so a view only
//! has to forward events and subscribe to what it shows.

pub mod contextmenu;
pub mod observable;
pub mod resizer;
pub mod sidebar;
pub mod vfs;
pub mod workspace;

use vstd::prelude::*;

verus! {

/// A request from another part of the shell to the session manager.
#[derive(Clone, Copy, Debug, PartialEq, Eq)]
pub enum WorkspaceCommand {
    /// Show this file of the tree in an editor.
    OpenFile(usize),
}

} // verus!
