use vstd::prelude::*;

verus! {

/// An unsigned point in screen or widget-local space.
#[derive(Debug, Default, Clone, Copy, Hash, PartialEq, Eq, Structural)]
pub struct Pos {
    pub x: u32,
    pub y: u32,
}

/// An unsigned 2D extent.
#[derive(Debug, Default, Clone, Copy, Hash, PartialEq, Eq, Structural)]
pub struct Size {
    pub width: u32,
    pub height: u32,
}

/// Placement of the render target on screen: offset and size in pixels.
#[derive(Debug, Default, Clone, Copy, PartialEq, Eq, Structural)]
pub struct WindowExtent {
    pub x: i32,
    pub y: i32,
    pub width: u32,
    pub height: u32,
}

impl WindowExtent {
    /// An extent of the given size at the origin.
    pub fn new(width: u32, height: u32) -> (r: WindowExtent)
        ensures
            r == (WindowExtent { x: 0, y: 0, width, height }),
    {
        WindowExtent { x: 0, y: 0, width, height }
    }
}

/// An axis-aligned rectangle in canvas-local pixels, origin top-left.
#[derive(Debug, Default, Clone, Copy, PartialEq, Eq, Structural)]
pub struct Rect {
    pub x: u32,
    pub y: u32,
    pub width: u32,
    pub height: u32,
}

impl Rect {
    pub fn from_xywh(x: u32, y: u32, width: u32, height: u32) -> (r: Rect)
        ensures
            r == (Rect { x, y, width, height }),
    {
        Rect { x, y, width, height }
    }

    /// Whether the pixel at column `px`, row `py` lies inside.
    pub open spec fn contains(self, px: int, py: int) -> bool {
        self.x <= px < self.x + self.width && self.y <= py < self.y + self.height
    }
}

/// A straight (not premultiplied) RGBA colour, eight bits per channel.
#[derive(Debug, Default, Clone, Copy, PartialEq, Eq, Structural)]
pub struct Color {
    pub r: u8,
    pub g: u8,
    pub b: u8,
    pub a: u8,
}

impl Color {
    pub fn from_rgba8(r: u8, g: u8, b: u8, a: u8) -> (c: Color)
        ensures
            c == (Color { r, g, b, a }),
    {
        Color { r, g, b, a }
    }

    pub open spec fn is_opaque(self) -> bool {
        self.a == 255
    }

    /// The stored pixel of an opaque colour.
    pub open spec fn opaque_pixel(self) -> (u8, u8, u8, u8) {
        (self.r, self.g, self.b, 255u8)
    }
}

/// The quad a canvas is projected onto: corners at
/// `(±width / scale, ±height / scale)` in view space, where `scale` is the
/// viewport height the quad was computed against.
#[derive(Debug, Default, Clone, Copy, PartialEq, Eq, Structural)]
pub struct Quad {
    pub width: u32,
    pub height: u32,
    pub scale: u32,
}

impl Quad {
    /// The quad of a widget of size `size` on a viewport of extent `extent`:
    /// both axes are normalised by the viewport height.
    pub open spec fn spec_fit(size: Size, extent: WindowExtent) -> Quad {
        Quad { width: size.width, height: size.height, scale: extent.height }
    }

    pub fn fit(size: Size, extent: WindowExtent) -> (q: Quad)
        ensures
            q == Quad::spec_fit(size, extent),
    {
        Quad { width: size.width, height: size.height, scale: extent.height }
    }
}

} // verus!
