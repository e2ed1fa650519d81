//! The title bar: which window controls it draws on each platform, how its
//! buttons behave, and when a drag on it moves the window.

use vstd::prelude::*;

verus! {

/// The platform families whose title bars differ.
#[derive(Clone, Copy, Debug, PartialEq, Eq, Structural)]
pub enum PlatformStyle {
    Mac,
    Linux,
    Windows,
}

/// Left padding of the title bar, in pixels: room for the macOS traffic
/// lights, which the system draws over it.
pub fn title_bar_left_padding(platform: PlatformStyle) -> (r: u32)
    ensures
        r == (if platform == PlatformStyle::Mac { 78u32 } else { 12u32 }),
{
    match platform {
        PlatformStyle::Mac => 78,
        _ => 12,
    }
}

/// The Windows caption font.
pub fn caption_font_family() -> (r: &'static str)
    ensures
        r@ == "Segoe Fluent Icons"@,
{
    "Segoe Fluent Icons"
}

/// The caption font where the first one is missing (before Windows 11).
pub fn caption_font_fallback() -> (r: &'static str)
    ensures
        r@ == "Segoe MDL2 Assets"@,
{
    "Segoe MDL2 Assets"
}

/// A window control button.
#[derive(Clone, Copy, Debug, PartialEq, Eq, Structural)]
pub enum ControlIcon {
    Minimize,
    Restore,
    Maximize,
    Close,
}

/// The part of the window a button stands for, for the system's hit test.
#[derive(Clone, Copy, Debug, PartialEq, Eq, Structural)]
pub enum WindowControlArea {
    Drag,
    Min,
    Max,
    Close,
}

/// The icons drawn on Linux buttons.
#[derive(Clone, Copy, Debug, PartialEq, Eq, Structural)]
pub enum LinuxIcon {
    WindowMinimize,
    WindowRestore,
    WindowMaximize,
    WindowClose,
}

/// The theme colors a button takes when hovered or pressed.
#[derive(Clone, Copy, Debug, PartialEq, Eq, Structural)]
pub enum ButtonTone {
    /// The danger colors (the close button).
    Danger,
    /// The secondary colors.
    Secondary,
}

impl ControlIcon {
    pub fn minimize() -> (r: Self)
        ensures
            r == ControlIcon::Minimize,
    {
        ControlIcon::Minimize
    }

    pub fn restore() -> (r: Self)
        ensures
            r == ControlIcon::Restore,
    {
        ControlIcon::Restore
    }

    pub fn maximize() -> (r: Self)
        ensures
            r == ControlIcon::Maximize,
    {
        ControlIcon::Maximize
    }

    pub fn close() -> (r: Self)
        ensures
            r == ControlIcon::Close,
    {
        ControlIcon::Close
    }

    /// The element id of the button.
    pub fn id(&self) -> (r: &'static str)
        ensures
            r@ == match *self {
                ControlIcon::Minimize => "minimize"@,
                ControlIcon::Restore => "restore"@,
                ControlIcon::Maximize => "maximize"@,
                ControlIcon::Close => "close"@,
            },
    {
        match self {
            ControlIcon::Minimize => "minimize",
            ControlIcon::Restore => "restore",
            ControlIcon::Maximize => "maximize",
            ControlIcon::Close => "close",
        }
    }

    /// The window area the button stands for.
    pub fn window_control_area(&self) -> (r: WindowControlArea)
        ensures
            r == match *self {
                ControlIcon::Minimize => WindowControlArea::Min,
                ControlIcon::Restore | ControlIcon::Maximize => WindowControlArea::Max,
                ControlIcon::Close => WindowControlArea::Close,
            },
    {
        match self {
            ControlIcon::Minimize => WindowControlArea::Min,
            ControlIcon::Restore | ControlIcon::Maximize => WindowControlArea::Max,
            ControlIcon::Close => WindowControlArea::Close,
        }
    }

    pub fn is_close(&self) -> (r: bool)
        ensures
            r == (*self == ControlIcon::Close),
    {
        *self == ControlIcon::Close
    }

    /// The Segoe caption glyph of the button.
    pub fn caption_glyph(&self) -> (r: &'static str)
        ensures
            r@ == match *self {
                ControlIcon::Minimize => "\u{e921}"@,
                ControlIcon::Restore => "\u{e923}"@,
                ControlIcon::Maximize => "\u{e922}"@,
                ControlIcon::Close => "\u{e8bb}"@,
            },
    {
        match self {
            ControlIcon::Minimize => "\u{e921}",
            ControlIcon::Restore => "\u{e923}",
            ControlIcon::Maximize => "\u{e922}",
            ControlIcon::Close => "\u{e8bb}",
        }
    }

    /// The icon of the button on Linux.
    pub fn linux_icon(&self) -> (r: LinuxIcon)
        ensures
            r == match *self {
                ControlIcon::Minimize => LinuxIcon::WindowMinimize,
                ControlIcon::Restore => LinuxIcon::WindowRestore,
                ControlIcon::Maximize => LinuxIcon::WindowMaximize,
                ControlIcon::Close => LinuxIcon::WindowClose,
            },
    {
        match self {
            ControlIcon::Minimize => LinuxIcon::WindowMinimize,
            ControlIcon::Restore => LinuxIcon::WindowRestore,
            ControlIcon::Maximize => LinuxIcon::WindowMaximize,
            ControlIcon::Close => LinuxIcon::WindowClose,
        }
    }

    /// The colors of the hovered or pressed button: the danger ones for
    /// close, the secondary ones otherwise.
    pub fn tone(&self) -> (r: ButtonTone)
        ensures
            r == (if *self == ControlIcon::Close { ButtonTone::Danger } else { ButtonTone::Secondary }),
    {
        if self.is_close() {
            ButtonTone::Danger
        } else {
            ButtonTone::Secondary
        }
    }
}

/// The buttons of the title bar, left to right. None on macOS (the system
/// draws its own), in fullscreen, or on Linux with server decorations.
/// Otherwise minimize and maximize (restore when maximized), then close; on
/// Linux only the ones the compositor supports, close always.
pub open spec fn controls_for(
    platform: PlatformStyle,
    fullscreen: bool,
    client_decorated: bool,
    supports_minimize: bool,
    supports_maximize: bool,
    maximized: bool,
) -> Seq<ControlIcon> {
    if platform == PlatformStyle::Mac || fullscreen || (platform == PlatformStyle::Linux
        && !client_decorated) {
        Seq::empty()
    } else {
        let zoom = if maximized { ControlIcon::Restore } else { ControlIcon::Maximize };
        let show_min = platform != PlatformStyle::Linux || supports_minimize;
        let show_zoom = platform != PlatformStyle::Linux || supports_maximize;
        let s1: Seq<ControlIcon> = if show_min { seq![ControlIcon::Minimize] } else { seq![] };
        let s2: Seq<ControlIcon> = if show_zoom { s1.push(zoom) } else { s1 };
        s2.push(ControlIcon::Close)
    }
}

/// The window control buttons to draw.
pub fn window_controls(
    platform: PlatformStyle,
    fullscreen: bool,
    client_decorated: bool,
    supports_minimize: bool,
    supports_maximize: bool,
    maximized: bool,
) -> (r: Vec<ControlIcon>)
    ensures
        r@ == controls_for(platform, fullscreen, client_decorated, supports_minimize, supports_maximize, maximized),
{
    let mut out: Vec<ControlIcon> = Vec::new();
    if platform == PlatformStyle::Mac || fullscreen || (platform == PlatformStyle::Linux && !client_decorated) {
        return out;
    }
    let linux = platform == PlatformStyle::Linux;
    if !linux || supports_minimize {
        out.push(ControlIcon::minimize());
    }
    if !linux || supports_maximize {
        out.push(if maximized { ControlIcon::restore() } else { ControlIcon::maximize() });
    }
    out.push(ControlIcon::close());
    out
}

/// What a double click on the title bar does.
#[derive(Clone, Copy, Debug, PartialEq, Eq, Structural)]
pub enum DoubleClick {
    /// Maximize or restore the window (Linux).
    Zoom,
    /// Whatever the system's title bar setting says (macOS).
    SystemAction,
    /// Nothing here; the system handles it (Windows).
    Ignore,
}

/// The double-click behavior of the title bar on a platform.
pub fn double_click_action(platform: PlatformStyle) -> (r: DoubleClick)
    ensures
        r == match platform {
            PlatformStyle::Linux => DoubleClick::Zoom,
            PlatformStyle::Mac => DoubleClick::SystemAction,
            PlatformStyle::Windows => DoubleClick::Ignore,
        },
{
    match platform {
        PlatformStyle::Linux => DoubleClick::Zoom,
        PlatformStyle::Mac => DoubleClick::SystemAction,
        PlatformStyle::Windows => DoubleClick::Ignore,
    }
}

/// Whether a drag on the title bar is to move the window: armed by a left
/// press on the bar, disarmed by a release or a press elsewhere, and used
/// up by the first move.
pub struct TitleBarDrag {
    should_move: bool,
}

impl TitleBarDrag {
    pub closed spec fn armed(&self) -> bool {
        self.should_move
    }

    /// Not armed.
    pub fn new() -> (r: Self)
        ensures
            !r.armed(),
    {
        TitleBarDrag { should_move: false }
    }

    /// A left press on the bar.
    pub fn mouse_down(&mut self)
        ensures
            final(self).armed(),
    {
        self.should_move = true;
    }

    /// A left release on the bar.
    pub fn mouse_up(&mut self)
        ensures
            !final(self).armed(),
    {
        self.should_move = false;
    }

    /// A press outside the bar.
    pub fn mouse_down_out(&mut self)
        ensures
            !final(self).armed(),
    {
        self.should_move = false;
    }

    /// The pointer moved. Returns whether the window starts moving, which is
    /// when the drag was armed; it is disarmed either way.
    pub fn mouse_move(&mut self) -> (start_move: bool)
        ensures
            start_move == old(self).armed(),
            !final(self).armed(),
    {
        let m = self.should_move;
        self.should_move = false;
        m
    }
}

/// Whenever the title bar draws buttons, the last one is close.
pub proof fn lemma_close_comes_last(
    platform: PlatformStyle,
    fullscreen: bool,
    client_decorated: bool,
    supports_minimize: bool,
    supports_maximize: bool,
    maximized: bool,
)
    ensures
        ({
            let c = controls_for(platform, fullscreen, client_decorated, supports_minimize, supports_maximize, maximized);
            c.len() > 0 ==> c.last() == ControlIcon::Close
        }),
{
}

} // verus!
