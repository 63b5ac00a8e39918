//! The main work area: the tab strip with its sessions above, the log
//! console below, and the handle between them that resizes the console.

pub mod activity_panel;
pub mod console;

use crate::resizer::{ResizeConfig, ResizeController, ResizeState};
use crate::workspace::activity_panel::{ActivityPanel, Session};
use crate::workspace::console::Console;
use crate::WorkspaceCommand;
use vstd::prelude::*;

verus! {

/// The height of a console that was never resized, or was collapsed.
pub const DEFAULT_CONSOLE_HEIGHT: u32 = 200;

/// The height of the handle.
pub const RESIZER_HEIGHT: u32 = 4;

/// At or below this height, a drag collapses the console.
pub const CONSOLE_COLLAPSE_AT: u32 = 75;

/// Above this height, a drag sets the console's height.
pub const CONSOLE_COMMIT_ABOVE: u32 = 150;

/// How the console resizes. Its thresholds are its own, not the side
/// panel's.
pub open spec fn console_config() -> ResizeConfig {
    ResizeConfig {
        offset: 0,
        low: CONSOLE_COLLAPSE_AT,
        high: CONSOLE_COMMIT_ABOVE,
        default_size: DEFAULT_CONSOLE_HEIGHT,
    }
}

/// How far above the window's lower edge the console's upper edge would be
/// if the handle were at `y`: the window's height less the pointer's
/// position and the handle, and not below zero.
pub open spec fn console_coordinate(y: i32, window_height: u32) -> u32 {
    let above = (if y < 0 {
        0
    } else {
        y as int
    }) + RESIZER_HEIGHT;
    if window_height >= above {
        (window_height - above) as u32
    } else {
        0u32
    }
}

/// The width left for the work area beside a side bar, and not below zero.
pub open spec fn width_beside(window_width: u32, sidebar_width: u32) -> u32 {
    if window_width >= sidebar_width {
        (window_width - sidebar_width) as u32
    } else {
        0u32
    }
}

/// `width_beside`, computed.
pub fn workspace_width(window_width: u32, sidebar_width: u32) -> (width: u32)
    ensures
        width == width_beside(window_width, sidebar_width),
{
    if window_width >= sidebar_width {
        window_width - sidebar_width
    } else {
        0
    }
}

/// The work area's state, as mathematics.
pub struct WorkspaceState {
    /// The tabs.
    pub session: Session,
    /// The handle of the console.
    pub console: ResizeState,
}

impl WorkspaceState {
    /// The height left for the tabs in a work area `height` high: what the
    /// console and the handle do not take, and not below zero.
    pub open spec fn activity_panel_height(self, height: u32) -> u32 {
        if height >= self.console.size + RESIZER_HEIGHT {
            (height - (self.console.size + RESIZER_HEIGHT)) as u32
        } else {
            0u32
        }
    }

    /// The pointer moves to `y` in a window `window_height` high.
    pub open spec fn pointer_move(self, y: i32, window_height: u32) -> WorkspaceState {
        WorkspaceState {
            console: self.console.pointer_move(
                console_config(),
                console_coordinate(y, window_height),
                window_height,
            ),
            ..self
        }
    }
}

/// The work area.
pub struct Workspace {
    pub activity_panel: ActivityPanel,
    pub console: Console,
    pub resizer: ResizeController,
}

impl View for Workspace {
    type V = WorkspaceState;

    open spec fn view(&self) -> WorkspaceState {
        WorkspaceState { session: self.activity_panel@, console: self.resizer@ }
    }
}

impl Default for Workspace {
    /// The welcome page above a console of the default height.
    fn default() -> (workspace: Workspace)
        ensures
            workspace@.session == Session::initial(),
            workspace@.console == ResizeState::initial(console_config()),
            workspace.wf(),
    {
        Workspace {
            activity_panel: ActivityPanel::default(),
            console: Console::default(),
            resizer: ResizeController::new(
                ResizeConfig {
                    offset: 0,
                    low: CONSOLE_COLLAPSE_AT,
                    high: CONSOLE_COMMIT_ABOVE,
                    default_size: DEFAULT_CONSOLE_HEIGHT,
                },
            ),
        }
    }
}

impl Workspace {
    /// The tabs and the handle are well formed, and the handle resizes as a
    /// console's.
    pub open spec fn wf(&self) -> bool {
        &&& self.activity_panel@.wf()
        &&& self.resizer.wf()
        &&& self.resizer.config() == console_config()
    }

    /// The console's height in pixels.
    pub fn console_height(&self) -> (height: u32)
        ensures
            height == self@.console.size,
    {
        self.resizer.size()
    }

    /// The height left for the tabs in a work area `height` high.
    pub fn activity_panel_height(&self, height: u32) -> (left: u32)
        requires
            self.wf(),
        ensures
            left == self@.activity_panel_height(height),
    {
        let taken = self.resizer.size() + RESIZER_HEIGHT;
        if height >= taken {
            height - taken
        } else {
            0
        }
    }

    /// Carries out a request from another part of the shell.
    pub fn handle_command(&mut self, command: WorkspaceCommand)
        requires
            old(self).wf(),
        ensures
            final(self)@.session == match command {
                WorkspaceCommand::OpenFile(file) => old(self)@.session.open_file(file),
            },
            final(self)@.console == old(self)@.console,
            final(self).wf(),
    {
        self.activity_panel.handle_command(command);
    }

    /// The handle is pressed: a drag begins.
    pub fn pointer_down(&mut self)
        requires
            old(self).wf(),
        ensures
            final(self)@.console == old(self)@.console.pointer_down(),
            final(self)@.session == old(self)@.session,
            final(self).wf(),
    {
        self.resizer.pointer_down();
    }

    /// The pointer moves to `y`, in a window `window_height` high.
    pub fn pointer_move(&mut self, y: i32, window_height: u32)
        requires
            old(self).wf(),
        ensures
            final(self)@ == old(self)@.pointer_move(y, window_height),
            final(self).wf(),
    {
        let below: u32 = if y < 0 {
            0
        } else {
            y as u32
        };
        let above: u64 = below as u64 + RESIZER_HEIGHT as u64;
        let coordinate: u32 = if window_height as u64 >= above {
            (window_height as u64 - above) as u32
        } else {
            0
        };
        self.resizer.pointer_move(coordinate, window_height);
    }

    /// The pointer is released: the drag ends. A console that was dragged
    /// shut is back at its default height; it is never taken away.
    pub fn pointer_up(&mut self)
        requires
            old(self).wf(),
        ensures
            final(self)@.console == old(self)@.console.pointer_up(console_config()),
            final(self)@.session == old(self)@.session,
            final(self).wf(),
    {
        self.resizer.pointer_up();
    }

    /// The pointer enters the handle.
    pub fn pointer_enter(&mut self)
        requires
            old(self).wf(),
        ensures
            final(self)@.console == old(self)@.console.hovered(true),
            final(self)@.session == old(self)@.session,
            final(self).wf(),
    {
        self.resizer.set_hover(true);
    }

    /// The pointer leaves the handle.
    pub fn pointer_leave(&mut self)
        requires
            old(self).wf(),
        ensures
            final(self)@.console == old(self)@.console.hovered(false),
            final(self)@.session == old(self)@.session,
            final(self).wf(),
    {
        self.resizer.set_hover(false);
    }
}

} // verus!
