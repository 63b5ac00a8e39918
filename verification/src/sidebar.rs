//! The side bar: a strip of icons, the panel that one of them opened, and
//! the handle that resizes it.
//!
//! At most one panel is shown. Clicking the icon of the panel that is shown
//! closes it; clicking another shows that one instead. Dragging the handle
//! until the panel collapses closes it too.

pub mod explorer;
pub mod search;

use crate::observable::{choice_cell, choice_get, choice_in, choice_set};
use crate::resizer::{ResizeConfig, ResizeController, ResizeState};
use crate::sidebar::explorer::Explorer;
use crate::sidebar::search::Search;
use futures_signals::signal::Mutable;
use vstd::prelude::*;

verus! {

/// The width of a panel that was never resized, or was collapsed.
pub const DEFAULT_PANEL_SIZE: u32 = 200;

/// The width of the strip of icons.
pub const MENU_SIZE_PX: u32 = 50;

/// The width of the handle.
pub const RESIZER_PX: u32 = 4;

/// At or below this width, a drag collapses the panel.
pub const PANEL_COLLAPSE_AT: u32 = 150;

/// Above this width, a drag sets the panel's width.
pub const PANEL_COMMIT_ABOVE: u32 = 200;

/// How the side panel resizes: measured from the strip of icons.
pub open spec fn panel_config() -> ResizeConfig {
    ResizeConfig {
        offset: MENU_SIZE_PX,
        low: PANEL_COLLAPSE_AT,
        high: PANEL_COMMIT_ABOVE,
        default_size: DEFAULT_PANEL_SIZE,
    }
}

/// A panel of the side bar, by kind.
#[derive(Clone, Copy, Debug, PartialEq, Eq)]
pub enum Panel {
    Explorer(Explorer),
    Search(Search),
}

impl Panel {
    /// The text shown when the pointer rests on the panel's icon.
    pub open spec fn tooltip_text(self) -> Seq<char> {
        match self {
            Panel::Explorer(_) => "Explorer"@,
            Panel::Search(_) => "Search"@,
        }
    }

    /// The text shown when the pointer rests on the panel's icon.
    pub fn tooltip(&self) -> (text: &'static str)
        ensures
            text@ == self.tooltip_text(),
    {
        match self {
            Panel::Explorer(explorer) => explorer.tooltip(),
            Panel::Search(search) => search.tooltip(),
        }
    }
}

/// The side bar's state, as mathematics.
pub struct SidebarState {
    /// The panels, in the order of their icons. A panel is known by its
    /// position here.
    pub panels: Seq<Panel>,
    /// The panel that is shown, if any.
    pub active: Option<usize>,
    /// The handle.
    pub resize: ResizeState,
}

impl SidebarState {
    /// The explorer and the search panel, with the explorer shown.
    pub open spec fn initial(panels: Seq<Panel>) -> SidebarState {
        SidebarState { panels, active: Some(0), resize: ResizeState::initial(panel_config()) }
    }

    /// The panel that is shown is one of the panels, and the handle is well
    /// formed.
    pub open spec fn wf(self) -> bool {
        &&& match self.active {
            Some(panel) => panel < self.panels.len(),
            None => true,
        }
        &&& self.resize.wf()
    }

    /// The width that the side bar takes: the strip of icons, and the handle
    /// and the panel if one is shown.
    pub open spec fn width(self) -> int {
        MENU_SIZE_PX + if self.active is Some {
            RESIZER_PX + self.resize.size
        } else {
            0
        }
    }

    /// An icon is clicked: its panel is closed if it was shown, and shown in
    /// place of any other if it was not.
    pub open spec fn toggle(self, panel: usize) -> SidebarState {
        if panel < self.panels.len() {
            SidebarState {
                active: if self.active == Some(panel) {
                    None
                } else {
                    Some(panel)
                },
                ..self
            }
        } else {
            self
        }
    }

    /// The handle is pressed.
    pub open spec fn pointer_down(self) -> SidebarState {
        SidebarState { resize: self.resize.pointer_down(), ..self }
    }

    /// The horizontal position that a pointer event reports, as a distance
    /// from the viewport's left edge.
    pub open spec fn coordinate(x: i32) -> u32 {
        if x < 0 {
            0u32
        } else {
            x as u32
        }
    }

    /// The pointer moves to `x` in a window `window_width` wide.
    pub open spec fn pointer_move(self, x: i32, window_width: u32) -> SidebarState {
        SidebarState {
            resize: self.resize.pointer_move(panel_config(), Self::coordinate(x), window_width),
            ..self
        }
    }

    /// The pointer is released. A panel that was dragged shut is closed, and
    /// will be shown at its default width when it is opened again.
    pub open spec fn pointer_up(self) -> SidebarState {
        SidebarState {
            active: if self.resize.collapsed() {
                None
            } else {
                self.active
            },
            resize: self.resize.pointer_up(panel_config()),
            ..self
        }
    }

    /// The pointer enters or leaves the handle.
    pub open spec fn hovered(self, over: bool) -> SidebarState {
        SidebarState { resize: self.resize.hovered(over), ..self }
    }

    /// Releasing a panel that was dragged shut closes it and puts its width
    /// back, so that whichever panel is opened next is shown at the default
    /// width.
    pub proof fn lemma_collapse_reopens_at_default(self, panel: usize)
        requires
            self.resize.collapsed(),
            panel < self.panels.len(),
        ensures
            self.pointer_up().active is None,
            self.pointer_up().resize.size == DEFAULT_PANEL_SIZE,
            !self.pointer_up().resize.dragging,
            self.pointer_up().toggle(panel).active == Some(panel),
            self.pointer_up().toggle(panel).resize.size == DEFAULT_PANEL_SIZE,
            self.pointer_up().toggle(panel).width() == MENU_SIZE_PX + RESIZER_PX
                + DEFAULT_PANEL_SIZE,
    {
    }

    /// Releasing a panel that was not dragged shut leaves it shown, at the
    /// width that it has.
    pub proof fn lemma_release_keeps_panel(self)
        requires
            !self.resize.collapsed(),
        ensures
            self.pointer_up().active == self.active,
            self.pointer_up().resize.size == self.resize.size,
            !self.pointer_up().resize.dragging,
    {
    }

    /// Whatever the pointer does, the state stays well formed.
    pub proof fn lemma_events_keep_wf(self, x: i32, window_width: u32, panel: usize, over: bool)
        requires
            self.wf(),
        ensures
            self.toggle(panel).wf(),
            self.pointer_down().wf(),
            self.pointer_move(x, window_width).wf(),
            self.pointer_up().wf(),
            self.hovered(over).wf(),
    {
        self.resize.lemma_events_keep_wf(
            panel_config(),
            Self::coordinate(x),
            window_width,
            over,
        );
    }
}

/// The side bar.
pub struct Sidebar {
    panels: Vec<Panel>,
    active_panel: Mutable<Option<usize>>,
    resizer: ResizeController,
}

impl View for Sidebar {
    type V = SidebarState;

    closed spec fn view(&self) -> SidebarState {
        SidebarState {
            panels: self.panels@,
            active: choice_in(self.active_panel),
            resize: self.resizer@,
        }
    }
}

impl Default for Sidebar {
    /// The explorer and the search panel, with the explorer shown at the
    /// default width.
    fn default() -> (sidebar: Sidebar)
        ensures
            sidebar@ == SidebarState::initial(sidebar@.panels),
            sidebar@.panels.len() == 2,
            sidebar@.panels[0] is Explorer,
            sidebar@.panels[1] is Search,
            sidebar.wf(),
    {
        let mut panels: Vec<Panel> = Vec::new();
        panels.push(Panel::Explorer(Explorer::default()));
        panels.push(Panel::Search(Search::default()));
        Sidebar {
            panels,
            active_panel: choice_cell(Some(0)),
            resizer: ResizeController::new(
                ResizeConfig {
                    offset: MENU_SIZE_PX,
                    low: PANEL_COLLAPSE_AT,
                    high: PANEL_COMMIT_ABOVE,
                    default_size: DEFAULT_PANEL_SIZE,
                },
            ),
        }
    }
}

impl Sidebar {
    /// The state is well formed, and the handle resizes as a side panel's.
    pub closed spec fn wf(&self) -> bool {
        &&& self@.wf()
        &&& self.resizer.wf()
        &&& self.resizer.config() == panel_config()
    }

    /// A well-formed side bar has a well-formed state.
    pub proof fn lemma_wf(&self)
        requires
            self.wf(),
        ensures
            self@.wf(),
    {
    }

    /// The width that the side bar takes, in pixels.
    pub fn width(&self) -> (width: u32)
        requires
            self.wf(),
        ensures
            width == self@.width(),
    {
        match choice_get(&self.active_panel) {
            Some(_) => MENU_SIZE_PX + RESIZER_PX + self.resizer.size(),
            None => MENU_SIZE_PX,
        }
    }

    /// How many panels the side bar has.
    pub fn panel_count(&self) -> (count: usize)
        ensures
            count == self@.panels.len(),
    {
        self.panels.len()
    }

    /// The panel at a position of the strip of icons.
    pub fn panel(&self, panel: usize) -> (found: Option<Panel>)
        ensures
            found == if panel < self@.panels.len() {
                Some(self@.panels[panel as int])
            } else {
                None
            },
    {
        if panel < self.panels.len() {
            Some(self.panels[panel])
        } else {
            None
        }
    }

    /// The panel that is shown, if any.
    pub fn active_panel(&self) -> (panel: Option<usize>)
        ensures
            panel == self@.active,
    {
        choice_get(&self.active_panel)
    }

    /// Whether `panel` is the panel that is shown.
    pub fn is_panel_active(&self, panel: usize) -> (yes: bool)
        ensures
            yes == (self@.active == Some(panel)),
    {
        match choice_get(&self.active_panel) {
            Some(shown) => shown == panel,
            None => false,
        }
    }

    /// The panel's width in pixels.
    pub fn panel_size(&self) -> (size: u32)
        ensures
            size == self@.resize.size,
    {
        self.resizer.size()
    }

    /// The handle, for a view to read and subscribe to.
    pub fn resizer(&self) -> (resizer: &ResizeController)
        ensures
            resizer@ == self@.resize,
    {
        &self.resizer
    }

    /// The observable cell of the panel that is shown, for a view to
    /// subscribe to.
    pub fn active_panel_cell(&self) -> (cell: &Mutable<Option<usize>>)
        ensures
            choice_in(*cell) == self@.active,
    {
        &self.active_panel
    }

    /// An icon of the strip is clicked.
    pub fn toggle_panel(&mut self, panel: usize)
        requires
            old(self).wf(),
        ensures
            final(self)@ == old(self)@.toggle(panel),
            final(self).wf(),
    {
        if panel < self.panels.len() {
            let next = match choice_get(&self.active_panel) {
                Some(shown) => if shown == panel {
                    None
                } else {
                    Some(panel)
                },
                None => Some(panel),
            };
            choice_set(&mut self.active_panel, next);
        }
    }

    /// The handle is pressed: a drag begins.
    pub fn pointer_down(&mut self)
        requires
            old(self).wf(),
        ensures
            final(self)@ == old(self)@.pointer_down(),
            final(self).wf(),
    {
        self.resizer.pointer_down();
    }

    /// The pointer moves to `x`, in a window `window_width` wide.
    pub fn pointer_move(&mut self, x: i32, window_width: u32)
        requires
            old(self).wf(),
        ensures
            final(self)@ == old(self)@.pointer_move(x, window_width),
            final(self).wf(),
    {
        let coordinate: u32 = if x < 0 {
            0
        } else {
            x as u32
        };
        self.resizer.pointer_move(coordinate, window_width);
    }

    /// The pointer is released. A panel that was dragged shut is closed.
    pub fn pointer_up(&mut self)
        requires
            old(self).wf(),
        ensures
            final(self)@ == old(self)@.pointer_up(),
            final(self).wf(),
    {
        let collapsed = self.resizer.pointer_up();
        if collapsed {
            choice_set(&mut self.active_panel, None);
        }
    }

    /// The pointer enters the handle.
    pub fn pointer_over(&mut self)
        requires
            old(self).wf(),
        ensures
            final(self)@ == old(self)@.hovered(true),
            final(self).wf(),
    {
        self.resizer.set_hover(true);
    }

    /// The pointer leaves the handle.
    pub fn pointer_out(&mut self)
        requires
            old(self).wf(),
        ensures
            final(self)@ == old(self)@.hovered(false),
            final(self).wf(),
    {
        self.resizer.set_hover(false);
    }
}

} // verus!
