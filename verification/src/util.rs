//! Plain value types shared by the whole library: colors, positions, sizes and scales.
use vstd::prelude::*;

verus! {

/// An RGBA color with 8 bits per channel.
#[derive(Clone, Copy, Debug, PartialEq, Eq, Structural)]
pub struct Color {
    pub r: u8,
    pub g: u8,
    pub b: u8,
    pub a: u8,
}

impl Color {
    /// An opaque color.
    pub fn rgb(r: u8, g: u8, b: u8) -> (c: Color)
        ensures
            c == (Color { r, g, b, a: 255 }),
    {
        Color { r, g, b, a: 255 }
    }

    /// A color with the given alpha channel.
    pub fn rgba(r: u8, g: u8, b: u8, a: u8) -> (c: Color)
        ensures
            c == (Color { r, g, b, a }),
    {
        Color { r, g, b, a }
    }

    /// Fully transparent black.
    pub fn transparent() -> (c: Color)
        ensures
            c == (Color { r: 0, g: 0, b: 0, a: 0 }),
    {
        Color { r: 0, g: 0, b: 0, a: 0 }
    }

    pub fn white() -> (c: Color)
        ensures
            c == (Color { r: 255, g: 255, b: 255, a: 255 }),
    {
        Color { r: 255, g: 255, b: 255, a: 255 }
    }

    pub fn black() -> (c: Color)
        ensures
            c == (Color { r: 0, g: 0, b: 0, a: 255 }),
    {
        Color { r: 0, g: 0, b: 0, a: 255 }
    }

    pub fn red() -> (c: Color)
        ensures
            c == (Color { r: 255, g: 0, b: 0, a: 255 }),
    {
        Color { r: 255, g: 0, b: 0, a: 255 }
    }

    pub fn orange() -> (c: Color)
        ensures
            c == (Color { r: 255, g: 165, b: 0, a: 255 }),
    {
        Color { r: 255, g: 165, b: 0, a: 255 }
    }

    pub fn yellow() -> (c: Color)
        ensures
            c == (Color { r: 255, g: 255, b: 0, a: 255 }),
    {
        Color { r: 255, g: 255, b: 0, a: 255 }
    }
}

/// A point in window coordinates, in pixels.
#[derive(Clone, Copy, Debug, PartialEq, Eq, Structural)]
pub struct Position {
    pub x: i32,
    pub y: i32,
}

/// Whether the component-wise sum of two positions fits in `i32`.
pub open spec fn position_sum_fits(a: Position, b: Position) -> bool {
    &&& i32::MIN <= a.x + b.x <= i32::MAX
    &&& i32::MIN <= a.y + b.y <= i32::MAX
}

impl Position {
    /// The origin.
    pub fn new() -> (p: Position)
        ensures
            p == (Position { x: 0, y: 0 }),
    {
        Position { x: 0, y: 0 }
    }

    /// Component-wise sum.
    pub fn add(self, rhs: Position) -> (p: Position)
        requires
            position_sum_fits(self, rhs),
        ensures
            p.x == self.x + rhs.x,
            p.y == self.y + rhs.y,
    {
        Position { x: self.x + rhs.x, y: self.y + rhs.y }
    }
}

/// A width and a height, in pixels.
#[derive(Clone, Copy, Debug, PartialEq, Eq, Structural)]
pub struct Size {
    pub width: u32,
    pub height: u32,
}

impl Size {
    pub fn new() -> (s: Size)
        ensures
            s == (Size { width: 0, height: 0 }),
    {
        Size { width: 0, height: 0 }
    }
}

/// A scale factor per axis. Each factor is kept as the bit pattern of an
/// IEEE-754 single precision number (`f32::to_bits`); the library only stores
/// and copies these values, the arithmetic on them happens where they are drawn.
#[derive(Clone, Copy, Debug, PartialEq, Eq, Structural)]
pub struct Scale {
    pub x: u32,
    pub y: u32,
}

/// The bit pattern of `1.0f32`.
pub const UNIT_SCALE_BITS: u32 = 0x3f80_0000u32;

impl Scale {
    /// The identity scale, `1.0` on both axes.
    pub fn new() -> (s: Scale)
        ensures
            s == (Scale { x: UNIT_SCALE_BITS, y: UNIT_SCALE_BITS }),
    {
        Scale { x: UNIT_SCALE_BITS, y: UNIT_SCALE_BITS }
    }
}

} // verus!
