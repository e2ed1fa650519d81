//! The frame drawn around a window whose decorations the client draws: the
//! shadow gutter that serves as resize handle, and which sides get it.
//!
//! Pixel amounts here are whole pixels (the shadow is 12 pixels wide on
//! Linux and absent elsewhere); the caller passes the platform's shadow
//! size.

use vstd::prelude::*;

verus! {

/// Which sides of a window are tiled against a screen edge or another
/// window.
#[derive(Clone, Copy, Debug, PartialEq, Eq, Structural)]
pub struct Tiling {
    pub top: bool,
    pub left: bool,
    pub right: bool,
    pub bottom: bool,
}

impl Tiling {
    /// Whether any side is tiled.
    pub fn is_tiled(&self) -> (r: bool)
        ensures
            r == (self.top || self.left || self.right || self.bottom),
    {
        self.top || self.left || self.right || self.bottom
    }
}

/// Who draws the window's decorations.
#[derive(Clone, Copy, Debug, PartialEq, Eq, Structural)]
pub enum Decorations {
    Server,
    Client { tiling: Tiling },
}

/// A value for each side of a window.
#[derive(Clone, Copy, Debug, PartialEq, Eq, Structural)]
pub struct Edges<T> {
    pub top: T,
    pub right: T,
    pub bottom: T,
    pub left: T,
}

/// The padding around the window content: the shadow on every untiled side
/// of a floating client-decorated window, nothing otherwise.
pub open spec fn paddings(maximized: bool, fullscreen: bool, decorations: Decorations, shadow: u32) -> Edges<u32> {
    if maximized || fullscreen {
        Edges { top: 0, right: 0, bottom: 0, left: 0 }
    } else {
        match decorations {
            Decorations::Server => Edges { top: 0, right: 0, bottom: 0, left: 0 },
            Decorations::Client { tiling } => Edges {
                top: if tiling.top { 0 } else { shadow },
                right: if tiling.right { 0 } else { shadow },
                bottom: if tiling.bottom { 0 } else { shadow },
                left: if tiling.left { 0 } else { shadow },
            },
        }
    }
}

/// The padding, in pixels, that the window keeps around its content.
pub fn window_paddings(maximized: bool, fullscreen: bool, decorations: Decorations, shadow: u32) -> (r: Edges<u32>)
    ensures
        r == paddings(maximized, fullscreen, decorations, shadow),
{
    if maximized || fullscreen {
        return Edges { top: 0, right: 0, bottom: 0, left: 0 };
    }
    match decorations {
        Decorations::Server => Edges { top: 0, right: 0, bottom: 0, left: 0 },
        Decorations::Client { tiling } => {
            let mut p = Edges { top: shadow, right: shadow, bottom: shadow, left: shadow };
            if tiling.top {
                p.top = 0;
            }
            if tiling.bottom {
                p.bottom = 0;
            }
            if tiling.left {
                p.left = 0;
            }
            if tiling.right {
                p.right = 0;
            }
            p
        },
    }
}

/// An edge or corner a window is resized from.
#[derive(Clone, Copy, Debug, PartialEq, Eq, Structural)]
pub enum ResizeEdge {
    Top,
    TopRight,
    Right,
    BottomRight,
    Bottom,
    BottomLeft,
    Left,
    TopLeft,
}

/// The edge or corner under the pointer, given on which sides it is within
/// the shadow gutter: a corner where two adjacent sides meet, a side alone,
/// nothing otherwise. Tiled sides are never grabbed.
pub open spec fn edge_for(near: Edges<bool>, tiling: Tiling) -> Option<ResizeEdge> {
    let top = !tiling.top && near.top;
    let bottom = !tiling.bottom && near.bottom;
    let left = !tiling.left && near.left;
    let right = !tiling.right && near.right;
    if top && !bottom && left && !right {
        Some(ResizeEdge::TopLeft)
    } else if top && !bottom && !left && right {
        Some(ResizeEdge::TopRight)
    } else if !top && bottom && left && !right {
        Some(ResizeEdge::BottomLeft)
    } else if !top && bottom && !left && right {
        Some(ResizeEdge::BottomRight)
    } else if top && !bottom && !left && !right {
        Some(ResizeEdge::Top)
    } else if !top && bottom && !left && !right {
        Some(ResizeEdge::Bottom)
    } else if !top && !bottom && left && !right {
        Some(ResizeEdge::Left)
    } else if !top && !bottom && !left && right {
        Some(ResizeEdge::Right)
    } else {
        None
    }
}

/// The edge or corner to resize from, given on which sides the pointer is
/// within the shadow gutter.
pub fn resize_edge(near: Edges<bool>, tiling: Tiling) -> (r: Option<ResizeEdge>)
    ensures
        r == edge_for(near, tiling),
{
    let top = !tiling.top && near.top;
    let bottom = !tiling.bottom && near.bottom;
    let left = !tiling.left && near.left;
    let right = !tiling.right && near.right;
    match (top, bottom, left, right) {
        (true, false, true, false) => Some(ResizeEdge::TopLeft),
        (true, false, false, true) => Some(ResizeEdge::TopRight),
        (false, true, true, false) => Some(ResizeEdge::BottomLeft),
        (false, true, false, true) => Some(ResizeEdge::BottomRight),
        (true, false, false, false) => Some(ResizeEdge::Top),
        (false, true, false, false) => Some(ResizeEdge::Bottom),
        (false, false, true, false) => Some(ResizeEdge::Left),
        (false, false, false, true) => Some(ResizeEdge::Right),
        _ => None,
    }
}

/// How the frame around the window is drawn.
#[derive(Clone, Copy, Debug, PartialEq, Eq, Structural)]
pub struct FrameLayout {
    /// Neither maximized nor fullscreen.
    pub floating: bool,
    /// The gutter takes resize drags.
    pub can_resize: bool,
    /// The sides that get the shadow gutter and a border line.
    pub sides: Edges<bool>,
    /// A drop shadow is drawn.
    pub shadow: bool,
}

/// The frame of a window: with client decorations, a floating window gets
/// the gutter and a border on each untiled side, takes resize drags and
/// casts a shadow when no side is tiled; otherwise no frame at all.
pub open spec fn frame_for(maximized: bool, fullscreen: bool, decorations: Decorations) -> FrameLayout {
    let floating = !maximized && !fullscreen;
    match decorations {
        Decorations::Server => FrameLayout {
            floating,
            can_resize: false,
            sides: Edges { top: false, right: false, bottom: false, left: false },
            shadow: false,
        },
        Decorations::Client { tiling } => {
            let tiled = tiling.top || tiling.left || tiling.right || tiling.bottom;
            FrameLayout {
                floating,
                can_resize: floating && !tiled,
                sides: Edges {
                    top: floating && !tiling.top,
                    right: floating && !tiling.right,
                    bottom: floating && !tiling.bottom,
                    left: floating && !tiling.left,
                },
                shadow: floating && !tiled,
            }
        },
    }
}

/// The frame to draw around a window.
pub fn frame_layout(maximized: bool, fullscreen: bool, decorations: Decorations) -> (r: FrameLayout)
    ensures
        r == frame_for(maximized, fullscreen, decorations),
{
    let floating = !maximized && !fullscreen;
    match decorations {
        Decorations::Server => FrameLayout {
            floating,
            can_resize: false,
            sides: Edges { top: false, right: false, bottom: false, left: false },
            shadow: false,
        },
        Decorations::Client { tiling } => {
            let tiled = tiling.is_tiled();
            FrameLayout {
                floating,
                can_resize: floating && !tiled,
                sides: Edges {
                    top: floating && !tiling.top,
                    right: floating && !tiling.right,
                    bottom: floating && !tiling.bottom,
                    left: floating && !tiling.left,
                },
                shadow: floating && !tiled,
            }
        },
    }
}

/// The frame around the window content, holding its children.
pub struct WindowBorder<E> {
    children: Vec<E>,
}

impl<E> WindowBorder<E> {
    /// A frame with no children.
    pub fn new() -> (r: Self)
        ensures
            r.children_view() == Seq::<E>::empty(),
    {
        WindowBorder { children: Vec::new() }
    }

    /// The children, in order.
    pub closed spec fn children_view(&self) -> Seq<E> {
        self.children@
    }

    /// The frame with `elements` appended to its children.
    pub fn extend(self, elements: Vec<E>) -> (r: Self)
        ensures
            r.children_view() == self.children_view() + elements@,
    {
        let mut s = self;
        let mut more = elements;
        s.children.append(&mut more);
        s
    }

    /// The children, in order.
    pub fn into_children(self) -> (r: Vec<E>)
        ensures
            r@ == self.children_view(),
    {
        self.children
    }
}

/// A frame with no children.
pub fn window_border<E>() -> (r: WindowBorder<E>)
    ensures
        r.children_view() == Seq::<E>::empty(),
{
    WindowBorder::new()
}

} // verus!
