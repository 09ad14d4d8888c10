//! The description of a window to open.
use vstd::prelude::*;

verus! {

/// What a window is opened with: title, flags, size and position. Size and
/// position are in pixels.
pub struct WindowBuilder {
    pub title: String,
    pub resizable: bool,
    pub borderless: bool,
    pub fullscreen: bool,
    pub width: u32,
    pub height: u32,
    pub is_pos_centered: bool,
    pub x: i32,
    pub y: i32,
}

impl WindowBuilder {
    /// A window titled `title`, 100 by 100 pixels at the origin, with no flags.
    pub fn new(title: &str) -> (b: WindowBuilder)
        ensures
            b.title@ == title@,
            !b.resizable,
            !b.borderless,
            !b.fullscreen,
            b.width == 100,
            b.height == 100,
            !b.is_pos_centered,
            b.x == 0,
            b.y == 0,
    {
        WindowBuilder {
            title: title.to_owned(),
            resizable: false,
            borderless: false,
            fullscreen: false,
            x: 0,
            y: 0,
            is_pos_centered: false,
            width: 100,
            height: 100,
        }
    }

    pub fn size(self, width: u32, height: u32) -> (b: WindowBuilder)
        ensures
            b == (WindowBuilder { width, height, ..self }),
    {
        let mut b = self;
        b.width = width;
        b.height = height;
        b
    }

    pub fn resizable(self) -> (b: WindowBuilder)
        ensures
            b == (WindowBuilder { resizable: true, ..self }),
    {
        let mut b = self;
        b.resizable = true;
        b
    }

    pub fn borderless(self) -> (b: WindowBuilder)
        ensures
            b == (WindowBuilder { borderless: true, ..self }),
    {
        let mut b = self;
        b.borderless = true;
        b
    }

    pub fn fullscreen(self) -> (b: WindowBuilder)
        ensures
            b == (WindowBuilder { fullscreen: true, ..self }),
    {
        let mut b = self;
        b.fullscreen = true;
        b
    }

    /// Stores `y` as the horizontal position and leaves the vertical one as
    /// it was.
    pub fn position(self, x: i32, y: i32) -> (b: WindowBuilder)
        ensures
            b == (WindowBuilder { x: y, ..self }),
    {
        let mut b = self;
        b.x = x;
        b.x = y;
        b
    }

    /// Centers the window; this overrides the position.
    pub fn position_centered(self) -> (b: WindowBuilder)
        ensures
            b == (WindowBuilder { is_pos_centered: true, ..self }),
    {
        let mut b = self;
        b.is_pos_centered = true;
        b
    }
}

} // verus!
