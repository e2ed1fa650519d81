//! The state of a dock at a side of the window: where it sits, whether it
//! is open, whether it may be collapsed, and whether it is being resized.
//! Its size is in pixels, which are floating point, and is kept by the
//! caller.

use vstd::prelude::*;

verus! {

/// Where a dock sits.
#[derive(Clone, Copy, Debug, PartialEq, Eq, Structural)]
pub enum DockPlacement {
    Center,
    Left,
    Bottom,
    Right,
}

/// The direction along which a dock is resized.
#[derive(Clone, Copy, Debug, PartialEq, Eq, Structural)]
pub enum Axis {
    Horizontal,
    Vertical,
}

impl DockPlacement {
    /// The axis a side dock is resized along: horizontal for the left and
    /// right docks, vertical for the bottom one. The center has none.
    pub fn axis(&self) -> (r: Axis)
        requires
            *self != DockPlacement::Center,
        ensures
            r == (if *self == DockPlacement::Bottom { Axis::Vertical } else { Axis::Horizontal }),
    {
        match self {
            DockPlacement::Left | DockPlacement::Right => Axis::Horizontal,
            _ => Axis::Vertical,
        }
    }

    pub fn is_left(&self) -> (r: bool)
        ensures
            r == (*self == DockPlacement::Left),
    {
        *self == DockPlacement::Left
    }

    pub fn is_bottom(&self) -> (r: bool)
        ensures
            r == (*self == DockPlacement::Bottom),
    {
        *self == DockPlacement::Bottom
    }

    pub fn is_right(&self) -> (r: bool)
        ensures
            r == (*self == DockPlacement::Right),
    {
        *self == DockPlacement::Right
    }
}

/// A dock.
pub struct Dock {
    placement: DockPlacement,
    open: bool,
    collapsible: bool,
    resizing: bool,
}

/// The value of a dock.
pub struct DockView {
    pub placement: DockPlacement,
    pub open: bool,
    pub collapsible: bool,
    pub resizing: bool,
}

impl View for Dock {
    type V = DockView;

    closed spec fn view(&self) -> DockView {
        DockView {
            placement: self.placement,
            open: self.open,
            collapsible: self.collapsible,
            resizing: self.resizing,
        }
    }
}

impl Dock {
    /// A new dock at `placement`: open, collapsible, not being resized.
    pub fn new(placement: DockPlacement) -> (r: Self)
        ensures
            r@ == (DockView { placement, open: true, collapsible: true, resizing: false }),
    {
        Dock { placement, open: true, collapsible: true, resizing: false }
    }

    /// A new dock on the left.
    pub fn left() -> (r: Self)
        ensures
            r@ == (DockView { placement: DockPlacement::Left, open: true, collapsible: true, resizing: false }),
    {
        Self::new(DockPlacement::Left)
    }

    /// A new dock at the bottom.
    pub fn bottom() -> (r: Self)
        ensures
            r@ == (DockView { placement: DockPlacement::Bottom, open: true, collapsible: true, resizing: false }),
    {
        Self::new(DockPlacement::Bottom)
    }

    /// A new dock on the right.
    pub fn right() -> (r: Self)
        ensures
            r@ == (DockView { placement: DockPlacement::Right, open: true, collapsible: true, resizing: false }),
    {
        Self::new(DockPlacement::Right)
    }

    /// A dock restored from saved state. When it was closed, its panel is
    /// to be collapsed.
    pub fn from_state(placement: DockPlacement, open: bool) -> (r: Self)
        ensures
            r@ == (DockView { placement, open, collapsible: true, resizing: false }),
    {
        Dock { placement, open, collapsible: true, resizing: false }
    }

    pub fn placement(&self) -> (r: DockPlacement)
        ensures
            r == self@.placement,
    {
        self.placement
    }

    /// Whether the dock may be collapsed; a dock that may not be is opened.
    pub fn set_collapsible(&mut self, collapsible: bool)
        ensures
            final(self)@ == (DockView {
                collapsible,
                open: old(self)@.open || !collapsible,
                ..old(self)@
            }),
    {
        self.collapsible = collapsible;
        if !collapsible {
            self.open = true;
        }
    }

    pub fn is_open(&self) -> (r: bool)
        ensures
            r == self@.open,
    {
        self.open
    }

    /// Opens or closes the dock. Returns whether its panel is to be
    /// collapsed, which is exactly when the dock is closed.
    pub fn set_open(&mut self, open: bool) -> (collapse: bool)
        ensures
            final(self)@ == (DockView { open, ..old(self)@ }),
            collapse == !open,
    {
        self.open = open;
        !open
    }

    /// Opens a closed dock and closes an open one. Returns whether its panel
    /// is to be collapsed.
    pub fn toggle_open(&mut self) -> (collapse: bool)
        ensures
            final(self)@ == (DockView { open: !old(self)@.open, ..old(self)@ }),
            collapse == old(self)@.open,
    {
        let open = !self.open;
        self.set_open(open)
    }

    /// A drag on the resize handle started.
    pub fn start_resizing(&mut self)
        ensures
            final(self)@ == (DockView { resizing: true, ..old(self)@ }),
    {
        self.resizing = true;
    }

    /// The drag on the resize handle ended.
    pub fn done_resizing(&mut self)
        ensures
            final(self)@ == (DockView { resizing: false, ..old(self)@ }),
    {
        self.resizing = false;
    }

    /// Whether mouse moves resize the dock.
    pub fn is_resizing(&self) -> (r: bool)
        ensures
            r == self@.resizing,
    {
        self.resizing
    }

    /// Whether the dock draws its panel: when open, and the bottom dock
    /// always (closed, it shrinks to its tab bar).
    pub fn shows_panel(&self) -> (r: bool)
        ensures
            r == (self@.open || self@.placement == DockPlacement::Bottom),
    {
        self.open || self.placement.is_bottom()
    }
}

/// Toggling a dock twice leaves it as it was: if `b` is what toggling `a`
/// gives, and `c` what toggling `b` gives, then `c` is `a`.
pub proof fn lemma_toggle_twice(a: DockView, b: DockView, c: DockView)
    requires
        b == (DockView { open: !a.open, ..a }),
        c == (DockView { open: !b.open, ..b }),
    ensures
        c == a,
{
}

/// Making a dock not collapsible leaves it open, whatever it was before:
/// `b` is what `set_collapsible(collapsible)` makes of `a`.
pub proof fn lemma_not_collapsible_is_open(a: DockView, collapsible: bool, b: DockView)
    requires
        b == (DockView { collapsible, open: a.open || !collapsible, ..a }),
    ensures
        !b.collapsible ==> b.open,
{
}

} // verus!
