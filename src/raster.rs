//! The pixel buffer behind a canvas: a `tiny_skia::Pixmap`, seen through
//! its width and its row-major sequence of premultiplied RGBA pixels.
use vstd::prelude::*;
use tiny_skia::Pixmap;
use crate::geometry::{Color, Rect};

verus! {

/// A stored pixel: premultiplied red, green, blue and alpha.
pub type Rgba8 = (u8, u8, u8, u8);

/// The widest raster tiny-skia allocates: four bytes per pixel must fit in an `i32` row.
pub const MAX_RASTER_WIDTH: u32 = 536870911;

/// The largest coordinate a rectangle edge can take.
pub const MAX_EDGE: u32 = 2147483647;

/// Rectangle edges up to this coordinate are carried exactly by the `f32`
/// geometry a rectangle is filled with.
pub const MAX_EXACT_EDGE: u32 = 16777216;

#[verifier::external_type_specification]
#[verifier::external_body]
pub struct ExPixmap(Pixmap);

/// Width in pixels of a raster.
pub uninterp spec fn pixmap_width(p: Pixmap) -> nat;

/// The pixels of a raster, row by row from the top-left corner.
pub uninterp spec fn pixmap_pixels(p: Pixmap) -> Seq<Rgba8>;

/// The stored form of a straight colour after premultiplication.
pub uninterp spec fn premultiplied(r: u8, g: u8, b: u8, a: u8) -> Rgba8;

/// A stored pixel after a straight colour is composited over it, source-over,
/// with full coverage.
pub uninterp spec fn blended(dst: Rgba8, r: u8, g: u8, b: u8, a: u8) -> Rgba8;

pub open spec fn valid_raster_size(width: u32, height: u32) -> bool {
    0 < width <= MAX_RASTER_WIDTH && 0 < height
}

pub open spec fn transparent() -> Rgba8 {
    (0u8, 0u8, 0u8, 0u8)
}

/// Column and row of the pixel at `i` in a raster `width` pixels wide.
pub open spec fn column(i: int, width: nat) -> int {
    i % (width as int)
}

pub open spec fn row(i: int, width: nat) -> int {
    i / (width as int)
}

/// Whether the rectangle's far edges are exact in the fill's geometry.
pub open spec fn exact_edges(rect: Rect) -> bool {
    rect.x + rect.width <= MAX_EXACT_EDGE && rect.y + rect.height <= MAX_EXACT_EDGE
}

/// Relies on `tiny_skia::Pixmap::new`: a zero-filled (transparent) raster,
/// refused for a zero side or a width whose row does not fit in an `i32`.
#[verifier::external_body]
pub(crate) fn new_pixmap(width: u32, height: u32) -> (r: Option<Pixmap>)
    ensures
        r is Some <==> valid_raster_size(width, height),
        r matches Some(p) ==> pixmap_width(p) == width as nat && pixmap_pixels(p) == Seq::new(
            (width * height) as nat,
            |i: int| transparent(),
        ),
{
    Pixmap::new(width, height)
}

/// Relies on `tiny_skia::Pixmap::fill`: every pixel becomes the premultiplied
/// colour, which for an opaque colour is the colour itself.
#[verifier::external_body]
pub(crate) fn fill_pixmap(p: &mut Pixmap, c: Color)
    ensures
        pixmap_width(*final(p)) == pixmap_width(*old(p)),
        pixmap_pixels(*final(p)).len() == pixmap_pixels(*old(p)).len(),
        forall|i: int|
            0 <= i < pixmap_pixels(*final(p)).len() ==> {
                &&& pixmap_pixels(*final(p))[i] == premultiplied(c.r, c.g, c.b, c.a)
                &&& c.a == 255 ==> pixmap_pixels(*final(p))[i] == c.opaque_pixel()
            },
{
    p.fill(tiny_skia::Color::from_rgba8(c.r, c.g, c.b, c.a));
}

/// Relies on `tiny_skia::Pixmap::fill_rect` with an anti-aliased solid paint
/// and the identity transform, on either of its routes (direct, or tiled
/// through `fill_path`). A rectangle with whole-pixel edges exact in `f32`
/// covers each pixel inside it fully and no pixel outside it: pixels outside
/// keep their value, pixels inside take the colour composited over them.
#[verifier::external_body]
pub(crate) fn fill_pixmap_rect(p: &mut Pixmap, rect: Rect, c: Color)
    requires
        rect.width > 0,
        rect.height > 0,
        rect.x + rect.width <= pixmap_width(*old(p)),
        (rect.y + rect.height) * pixmap_width(*old(p)) <= pixmap_pixels(*old(p)).len(),
        rect.y + rect.height <= MAX_EDGE,
        pixmap_width(*old(p)) <= MAX_RASTER_WIDTH,
    ensures
        pixmap_width(*final(p)) == pixmap_width(*old(p)),
        pixmap_pixels(*final(p)).len() == pixmap_pixels(*old(p)).len(),
        exact_edges(rect) ==> forall|i: int|
            0 <= i < pixmap_pixels(*final(p)).len() ==> {
                let w = pixmap_width(*old(p));
                let old_pixel = pixmap_pixels(*old(p))[i];
                let inside = rect.contains(column(i, w), row(i, w));
                &&& !inside ==> #[trigger] pixmap_pixels(*final(p))[i] == old_pixel
                &&& inside ==> pixmap_pixels(*final(p))[i] == blended(old_pixel, c.r, c.g, c.b, c.a)
                &&& inside && c.a == 255 ==> pixmap_pixels(*final(p))[i] == c.opaque_pixel()
            },
{
    let paint = tiny_skia::Paint {
        anti_alias: true,
        shader: tiny_skia::Shader::SolidColor(tiny_skia::Color::from_rgba8(c.r, c.g, c.b, c.a)),
        ..Default::default()
    };
    if let Some(r) = tiny_skia::IntRect::from_xywh(rect.x as i32, rect.y as i32, rect.width, rect.height) {
        p.fill_rect(r.to_rect(), &paint, tiny_skia::Transform::identity(), None);
    }
}

/// Relies on `tiny_skia::Pixmap::data`: the pixels as bytes, four per
/// pixel in RGBA order.
#[verifier::external_body]
pub(crate) fn pixmap_data(p: &Pixmap) -> (r: &[u8])
    ensures
        r@.len() == 4 * pixmap_pixels(*p).len(),
        r@.len() <= usize::MAX,
        forall|i: int|
            0 <= i < pixmap_pixels(*p).len() ==> #[trigger] pixmap_pixels(*p)[i] == (
                r@[4 * i],
                r@[4 * i + 1],
                r@[4 * i + 2],
                r@[4 * i + 3],
            ),
{
    p.data()
}

/// Relies on `Clone` for `tiny_skia::Pixmap`, which copies size and pixels.
#[verifier::external_body]
pub(crate) fn copy_pixmap(p: &Pixmap) -> (r: Pixmap)
    ensures
        pixmap_width(r) == pixmap_width(*p),
        pixmap_pixels(r) == pixmap_pixels(*p),
{
    p.clone()
}

} // verus!
