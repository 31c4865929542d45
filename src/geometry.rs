//! Plain geometry and colour values shared by the screens and the image codec.
use vstd::prelude::*;

verus! {

/// A point on the display, in pixels; `x` grows to the right and `y` downwards.
#[derive(Clone, Copy, Debug, PartialEq, Eq, Structural)]
pub struct Point {
    pub x: i32,
    pub y: i32,
}

/// A width and a height, in pixels.
#[derive(Clone, Copy, Debug, PartialEq, Eq, Structural)]
pub struct Size {
    pub width: u32,
    pub height: u32,
}

/// An axis-aligned rectangle given by its top-left corner and its size.
#[derive(Clone, Copy, Debug, PartialEq, Eq, Structural)]
pub struct Rectangle {
    pub top_left: Point,
    pub size: Size,
}

/// A 24-bit colour.
#[derive(Clone, Copy, Debug, PartialEq, Eq, Structural)]
pub struct Colour {
    pub r: u8,
    pub g: u8,
    pub b: u8,
}

impl Point {
    pub fn new(x: i32, y: i32) -> (r: Point)
        ensures
            r.x == x,
            r.y == y,
    {
        Point { x, y }
    }

    pub fn zero() -> (r: Point)
        ensures
            r.x == 0,
            r.y == 0,
    {
        Point { x: 0, y: 0 }
    }
}

impl Size {
    pub fn new(width: u32, height: u32) -> (r: Size)
        ensures
            r.width == width,
            r.height == height,
    {
        Size { width, height }
    }

    pub fn zero() -> (r: Size)
        ensures
            r.width == 0,
            r.height == 0,
    {
        Size { width: 0, height: 0 }
    }
}

impl Rectangle {
    pub fn new(top_left: Point, size: Size) -> (r: Rectangle)
        ensures
            r.top_left == top_left,
            r.size == size,
    {
        Rectangle { top_left, size }
    }

    pub open spec fn spec_is_zero_sized(&self) -> bool {
        self.size.width == 0 || self.size.height == 0
    }

    /// True when the rectangle covers no pixel at all.
    #[verifier::when_used_as_spec(spec_is_zero_sized)]
    pub fn is_zero_sized(&self) -> (r: bool)
        ensures
            r == self.spec_is_zero_sized(),
    {
        self.size.width == 0 || self.size.height == 0
    }
}

impl Colour {
    pub fn new(r: u8, g: u8, b: u8) -> (c: Colour)
        ensures
            c.r == r,
            c.g == g,
            c.b == b,
    {
        Colour { r, g, b }
    }
}

impl Colour {
    /// Black.
    pub fn black() -> (c: Colour)
        ensures
            c.r == 0,
            c.g == 0,
            c.b == 0,
    {
        Colour { r: 0, g: 0, b: 0 }
    }

    /// White.
    pub fn white() -> (c: Colour)
        ensures
            c.r == 255,
            c.g == 255,
            c.b == 255,
    {
        Colour { r: 255, g: 255, b: 255 }
    }

    /// Red.
    pub fn red() -> (c: Colour)
        ensures
            c.r == 255,
            c.g == 0,
            c.b == 0,
    {
        Colour { r: 255, g: 0, b: 0 }
    }

    /// Green.
    pub fn green() -> (c: Colour)
        ensures
            c.r == 0,
            c.g == 255,
            c.b == 0,
    {
        Colour { r: 0, g: 255, b: 0 }
    }

    /// Blue.
    pub fn blue() -> (c: Colour)
        ensures
            c.r == 0,
            c.g == 0,
            c.b == 255,
    {
        Colour { r: 0, g: 0, b: 255 }
    }

    /// Yellow.
    pub fn yellow() -> (c: Colour)
        ensures
            c.r == 255,
            c.g == 255,
            c.b == 0,
    {
        Colour { r: 255, g: 255, b: 0 }
    }

    /// Magenta.
    pub fn magenta() -> (c: Colour)
        ensures
            c.r == 255,
            c.g == 0,
            c.b == 255,
    {
        Colour { r: 255, g: 0, b: 255 }
    }

    /// Orange (the CSS colour).
    pub fn orange() -> (c: Colour)
        ensures
            c.r == 255,
            c.g == 165,
            c.b == 0,
    {
        Colour { r: 255, g: 165, b: 0 }
    }

    /// Violet (the CSS colour).
    pub fn violet() -> (c: Colour)
        ensures
            c.r == 238,
            c.g == 130,
            c.b == 238,
    {
        Colour { r: 238, g: 130, b: 238 }
    }
}

} // verus!
