//! Drag-to-resize with a dead zone.
//!
//! A panel's handle is pressed, dragged and released. While it is dragged,
//! every pointer position proposes a size. Small proposals collapse the
//! panel, large ones are taken as they are, and those in the band between
//! leave the size alone, so that the panel does not flicker near the point
//! where it snaps shut. A panel that is released collapsed goes back to its
//! default size, ready to be shown again.

use crate::observable::{flag_cell, flag_get, flag_in, flag_set, number_cell, number_get, number_in, number_set};
use futures_signals::signal::Mutable;
use vstd::prelude::*;

verus! {

/// No panel is ever larger than this: four fifths of the largest viewport.
pub const SIZE_LIMIT: u32 = 3435973836;

/// What tells one resizable panel from another.
#[derive(Clone, Copy, Debug, PartialEq, Eq)]
pub struct ResizeConfig {
    /// What lies between the viewport's edge and the panel, in pixels.
    pub offset: u32,
    /// At or below this, a proposed size collapses the panel.
    pub low: u32,
    /// Above this, a proposed size is taken as it is.
    pub high: u32,
    /// The size of a panel that was never resized, or was collapsed.
    pub default_size: u32,
}

impl ResizeConfig {
    /// The band is not inverted, and the default size is one that a panel
    /// can be shown at.
    pub open spec fn wf(self) -> bool {
        self.low <= self.high && 0 < self.default_size <= SIZE_LIMIT
    }

    /// Whether the configuration is well formed.
    pub fn is_valid(&self) -> (valid: bool)
        ensures
            valid == self.wf(),
    {
        self.low <= self.high && 0 < self.default_size && self.default_size <= SIZE_LIMIT
    }
}

/// The largest size that a panel may take in a viewport: 80% of it, rounded
/// down.
pub open spec fn bound(viewport: u32) -> u32 {
    (viewport as int * 4 / 5) as u32
}

/// The size that a pointer position proposes: the position less the offset,
/// not below zero and not above the viewport's bound.
pub open spec fn candidate(coordinate: u32, offset: u32, viewport: u32) -> u32 {
    let shifted = if coordinate >= offset {
        (coordinate - offset) as u32
    } else {
        0u32
    };
    if shifted <= bound(viewport) {
        shifted
    } else {
        bound(viewport)
    }
}

/// The size after a proposal: zero at or below `low`, unchanged in the band
/// up to `high`, the proposal itself above it.
pub open spec fn committed(previous: u32, proposed: u32, low: u32, high: u32) -> u32 {
    if proposed <= low {
        0
    } else if proposed <= high {
        previous
    } else {
        proposed
    }
}

/// `bound`, computed.
pub fn size_bound(viewport: u32) -> (size: u32)
    ensures
        size == bound(viewport),
        size <= SIZE_LIMIT,
        size <= viewport,
{
    let wide: u64 = viewport as u64;
    (wide * 4 / 5) as u32
}

/// `candidate`, computed.
pub fn candidate_size(coordinate: u32, offset: u32, viewport: u32) -> (size: u32)
    ensures
        size == candidate(coordinate, offset, viewport),
        size <= SIZE_LIMIT,
{
    let shifted: u32 = if coordinate >= offset {
        coordinate - offset
    } else {
        0
    };
    let limit = size_bound(viewport);
    if shifted <= limit {
        shifted
    } else {
        limit
    }
}

/// `committed`, computed.
pub fn committed_size(previous: u32, proposed: u32, low: u32, high: u32) -> (size: u32)
    ensures
        size == committed(previous, proposed, low, high),
{
    if proposed <= low {
        0
    } else if proposed <= high {
        previous
    } else {
        proposed
    }
}

/// What a resizable panel's handle knows at one moment.
pub struct ResizeState {
    /// The panel's size in pixels. Zero only during a drag.
    pub size: u32,
    /// Whether the handle is held.
    pub dragging: bool,
    /// Whether the pointer is over the handle. Only for show.
    pub hover: bool,
}

impl ResizeState {
    /// A panel at rest at its default size.
    pub open spec fn initial(config: ResizeConfig) -> ResizeState {
        ResizeState { size: config.default_size, dragging: false, hover: false }
    }

    /// The size is within the limit, and a panel at rest has a size.
    pub open spec fn wf(self) -> bool {
        self.size <= SIZE_LIMIT && (!self.dragging ==> self.size > 0)
    }

    /// The handle is pressed.
    pub open spec fn pointer_down(self) -> ResizeState {
        ResizeState { dragging: true, ..self }
    }

    /// The pointer moves to `coordinate` in a viewport of extent `viewport`.
    /// Nothing happens unless the handle is held.
    pub open spec fn pointer_move(self, config: ResizeConfig, coordinate: u32, viewport: u32) -> ResizeState {
        if self.dragging {
            ResizeState {
                size: committed(
                    self.size,
                    candidate(coordinate, config.offset, viewport),
                    config.low,
                    config.high,
                ),
                ..self
            }
        } else {
            self
        }
    }

    /// Whether the panel is collapsed.
    pub open spec fn collapsed(self) -> bool {
        self.size == 0
    }

    /// The pointer is released, wherever it is. A collapsed panel goes back
    /// to its default size.
    pub open spec fn pointer_up(self, config: ResizeConfig) -> ResizeState {
        ResizeState {
            size: if self.collapsed() {
                config.default_size
            } else {
                self.size
            },
            dragging: false,
            hover: self.hover,
        }
    }

    /// The pointer enters or leaves the handle.
    pub open spec fn hovered(self, over: bool) -> ResizeState {
        ResizeState { hover: over, ..self }
    }

    /// During a drag a proposal at or below the lower threshold collapses
    /// the panel, one in the band above it up to the upper threshold leaves
    /// the size as it was, and one above the upper threshold becomes the
    /// size, exactly. Outside a drag the pointer changes nothing.
    pub proof fn lemma_band(self, config: ResizeConfig, coordinate: u32, viewport: u32)
        ensures
            candidate(coordinate, config.offset, viewport) <= bound(viewport),
            !self.dragging ==> self.pointer_move(config, coordinate, viewport) == self,
            self.dragging && candidate(coordinate, config.offset, viewport) <= config.low
                ==> self.pointer_move(config, coordinate, viewport).size == 0,
            self.dragging && config.low < candidate(coordinate, config.offset, viewport)
                && candidate(coordinate, config.offset, viewport) <= config.high
                ==> self.pointer_move(config, coordinate, viewport).size == self.size,
            self.dragging && config.low <= config.high && config.high < candidate(
                coordinate,
                config.offset,
                viewport,
            ) ==> self.pointer_move(config, coordinate, viewport).size == candidate(
                coordinate,
                config.offset,
                viewport,
            ),
            self.pointer_move(config, coordinate, viewport).dragging == self.dragging,
            self.pointer_move(config, coordinate, viewport).hover == self.hover,
    {
    }

    /// Whatever the pointer does, the state stays well formed; and once the
    /// pointer is released, the panel is at rest and has a size.
    pub proof fn lemma_events_keep_wf(self, config: ResizeConfig, coordinate: u32, viewport: u32, over: bool)
        requires
            self.wf(),
            config.wf(),
        ensures
            self.pointer_down().wf(),
            self.pointer_move(config, coordinate, viewport).wf(),
            self.pointer_up(config).wf(),
            self.hovered(over).wf(),
            !self.pointer_up(config).dragging,
            self.pointer_up(config).size > 0,
    {
    }
}

/// One resizable panel's handle.
pub struct ResizeController {
    config: ResizeConfig,
    size: Mutable<u32>,
    active: Mutable<bool>,
    hover: Mutable<bool>,
}

impl View for ResizeController {
    type V = ResizeState;

    closed spec fn view(&self) -> ResizeState {
        ResizeState {
            size: number_in(self.size),
            dragging: flag_in(self.active),
            hover: flag_in(self.hover),
        }
    }
}

impl ResizeController {
    /// The thresholds, offset and default size that the handle works with.
    pub closed spec fn config(&self) -> ResizeConfig {
        self.config
    }

    /// The configuration and the state are well formed.
    pub open spec fn wf(&self) -> bool {
        self.config().wf() && self@.wf()
    }

    /// A handle at rest, with the panel at its default size.
    pub fn new(config: ResizeConfig) -> (controller: ResizeController)
        requires
            config.wf(),
        ensures
            controller@ == ResizeState::initial(config),
            controller.config() == config,
            controller.wf(),
    {
        ResizeController {
            config,
            size: number_cell(config.default_size),
            active: flag_cell(false),
            hover: flag_cell(false),
        }
    }

    /// The panel's size in pixels.
    pub fn size(&self) -> (size: u32)
        ensures
            size == self@.size,
    {
        number_get(&self.size)
    }

    /// Whether the handle is held.
    pub fn is_active(&self) -> (dragging: bool)
        ensures
            dragging == self@.dragging,
    {
        flag_get(&self.active)
    }

    /// Whether the pointer is over the handle.
    pub fn is_hovered(&self) -> (hover: bool)
        ensures
            hover == self@.hover,
    {
        flag_get(&self.hover)
    }

    /// Whether the handle is to be drawn highlighted: while it is held or
    /// the pointer is over it.
    pub fn is_highlighted(&self) -> (lit: bool)
        ensures
            lit == (self@.dragging || self@.hover),
    {
        flag_get(&self.active) || flag_get(&self.hover)
    }

    /// The observable cell of the size, for a view to subscribe to.
    pub fn size_cell(&self) -> (cell: &Mutable<u32>)
        ensures
            number_in(*cell) == self@.size,
    {
        &self.size
    }

    /// The observable cell of the drag flag, for a view to subscribe to.
    pub fn active_cell(&self) -> (cell: &Mutable<bool>)
        ensures
            flag_in(*cell) == self@.dragging,
    {
        &self.active
    }

    /// The observable cell of the hover flag, for a view to subscribe to.
    pub fn hover_cell(&self) -> (cell: &Mutable<bool>)
        ensures
            flag_in(*cell) == self@.hover,
    {
        &self.hover
    }

    /// The handle is pressed: a drag begins.
    pub fn pointer_down(&mut self)
        requires
            old(self).wf(),
        ensures
            final(self)@ == old(self)@.pointer_down(),
            final(self).config() == old(self).config(),
            final(self).wf(),
    {
        flag_set(&mut self.active, true);
    }

    /// The pointer moves. During a drag the size follows it as the band
    /// allows; otherwise nothing changes.
    pub fn pointer_move(&mut self, coordinate: u32, viewport: u32)
        requires
            old(self).wf(),
        ensures
            final(self)@ == old(self)@.pointer_move(old(self).config(), coordinate, viewport),
            final(self).config() == old(self).config(),
            final(self).wf(),
    {
        if flag_get(&self.active) {
            let proposed = candidate_size(coordinate, self.config.offset, viewport);
            if proposed <= self.config.low {
                number_set(&mut self.size, 0);
            } else if proposed > self.config.high {
                number_set(&mut self.size, proposed);
            }
        }
    }

    /// The pointer is released: the drag ends. Says whether the panel was
    /// collapsed; if it was, it is back at its default size.
    pub fn pointer_up(&mut self) -> (collapsed: bool)
        requires
            old(self).wf(),
        ensures
            collapsed == old(self)@.collapsed(),
            final(self)@ == old(self)@.pointer_up(old(self).config()),
            final(self).config() == old(self).config(),
            final(self).wf(),
    {
        flag_set(&mut self.active, false);
        let collapsed = number_get(&self.size) == 0;
        if collapsed {
            number_set(&mut self.size, self.config.default_size);
        }
        collapsed
    }

    /// The pointer enters or leaves the handle.
    pub fn set_hover(&mut self, over: bool)
        ensures
            final(self)@ == old(self)@.hovered(over),
            final(self).config() == old(self).config(),
    {
        flag_set(&mut self.hover, over);
    }
}

} // verus!
