//! The context menu that a tab opens on a secondary click.

use crate::observable::{flag_cell, flag_get, flag_in, flag_set, point_cell, point_get, point_in, point_set};
use futures_signals::signal::Mutable;
use vstd::prelude::*;

verus! {

/// What a context menu is at one moment: whether it is on screen, and where.
pub struct MenuState {
    pub shown: bool,
    pub position: (i32, i32),
}

impl MenuState {
    /// The menu as it is before anything opened it.
    pub open spec fn initial() -> MenuState {
        MenuState { shown: false, position: (0, 0) }
    }

    /// The menu after a secondary click at `(x, y)`.
    pub open spec fn opened_at(self, x: i32, y: i32) -> MenuState {
        MenuState { shown: true, position: (x, y) }
    }

    /// The menu after it was dismissed. It remembers where it was.
    pub open spec fn dismissed(self) -> MenuState {
        MenuState { shown: false, position: self.position }
    }
}

/// The observable state of one context menu.
pub struct ContextMenuState {
    pub show_menu: Mutable<bool>,
    pub menu_position: Mutable<(i32, i32)>,
}

impl View for ContextMenuState {
    type V = MenuState;

    open spec fn view(&self) -> MenuState {
        MenuState { shown: flag_in(self.show_menu), position: point_in(self.menu_position) }
    }
}

impl ContextMenuState {
    /// A hidden menu at the origin.
    pub fn new() -> (menu: ContextMenuState)
        ensures
            menu@ == MenuState::initial(),
    {
        ContextMenuState { show_menu: flag_cell(false), menu_position: point_cell((0, 0)) }
    }

    /// Shows the menu at the pointer's position.
    pub fn open_at(&mut self, x: i32, y: i32)
        ensures
            final(self)@ == old(self)@.opened_at(x, y),
    {
        flag_set(&mut self.show_menu, true);
        point_set(&mut self.menu_position, (x, y));
    }

    /// Takes the menu off the screen.
    pub fn dismiss(&mut self)
        ensures
            final(self)@ == old(self)@.dismissed(),
    {
        flag_set(&mut self.show_menu, false);
    }

    /// Whether the menu is on screen.
    pub fn is_shown(&self) -> (shown: bool)
        ensures
            shown == self@.shown,
    {
        flag_get(&self.show_menu)
    }

    /// Where the menu is, or was when it was last shown.
    pub fn position(&self) -> (position: (i32, i32))
        ensures
            position == self@.position,
    {
        point_get(&self.menu_position)
    }
}

} // verus!
