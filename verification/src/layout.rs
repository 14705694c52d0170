use vstd::prelude::*;

verus! {

/// Height of the editor's top bar, in pixels.
pub const TOP_BAR_HEIGHT: u32 = 100;

/// Width of the hierarchy panel on the left, in pixels.
pub const LEFT_PANEL_WIDTH: u32 = 300;

/// Width of the inspector panel on the right, in pixels.
pub const RIGHT_PANEL_WIDTH: u32 = 350;

/// Height of the window title bar, in pixels.
pub const TITLE_BAR_HEIGHT: u32 = 35;

/// Width of the border below the top bar, in pixels.
pub const TOP_BAR_BORDER: u32 = 2;

/// Screen area `(x, y, width, height)` where the game window is laid over the
/// editor whose window is at `(x, y)` with inner size `width` × `height`:
/// right of the left panel, below the top bar and its border, and as large as
/// what the panels and bars leave (never negative).
pub fn embedded_viewport_area(x: i32, y: i32, width: u32, height: u32) -> (r: (i32, i32, u32, u32))
    requires
        x + LEFT_PANEL_WIDTH <= i32::MAX,
        y + TOP_BAR_HEIGHT + TOP_BAR_BORDER <= i32::MAX,
    ensures
        r.0 == x + LEFT_PANEL_WIDTH,
        r.1 == y + TOP_BAR_HEIGHT + TOP_BAR_BORDER,
        r.2 == if width >= LEFT_PANEL_WIDTH + RIGHT_PANEL_WIDTH {
            width - (LEFT_PANEL_WIDTH + RIGHT_PANEL_WIDTH)
        } else {
            0
        },
        r.3 == if height >= TOP_BAR_HEIGHT + TITLE_BAR_HEIGHT {
            height - (TOP_BAR_HEIGHT + TITLE_BAR_HEIGHT)
        } else {
            0
        },
{
    let vx = x + LEFT_PANEL_WIDTH as i32;
    let vy = y + TOP_BAR_HEIGHT as i32 + TOP_BAR_BORDER as i32;
    let vw = width.saturating_sub(LEFT_PANEL_WIDTH + RIGHT_PANEL_WIDTH);
    let vh = height.saturating_sub(TOP_BAR_HEIGHT + TITLE_BAR_HEIGHT);
    (vx, vy, vw, vh)
}

/// Colour scheme of the editor.
#[derive(Clone, Copy, PartialEq, Debug, Eq, Structural)]
pub enum Theme {
    Dark,
    Light,
}

/// The name of a theme, as style sheets refer to it.
pub open spec fn theme_name(t: Theme) -> Seq<char> {
    match t {
        Theme::Dark => "dark"@,
        Theme::Light => "light"@,
    }
}

impl Theme {
    pub fn as_str(&self) -> (r: &'static str)
        ensures
            r@ == theme_name(*self),
    {
        match self {
            Theme::Dark => "dark",
            Theme::Light => "light",
        }
    }
}

} // verus!
