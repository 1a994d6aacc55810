//! An offscreen raster bound to the quad it is projected onto, and the
//! texture last submitted from it.
use vstd::prelude::*;
use tiny_skia::Pixmap;
use crate::geometry::{Color, Quad, Rect, Size};
use crate::raster::{
    blended, column, copy_pixmap, exact_edges, fill_pixmap, fill_pixmap_rect, new_pixmap,
    pixmap_data, pixmap_pixels, pixmap_width, premultiplied, row, transparent, valid_raster_size,
    Rgba8, MAX_EDGE, MAX_EXACT_EDGE,
};

verus! {

pub struct Canvas {
    pixmap: Pixmap,
    size: Size,
    quad: Quad,
    surface: Option<Pixmap>,
    surface_size: Size,
}

/// A pixel index below `width * height` names a column below `width` and a row below `height`.
pub proof fn lemma_pixel_in_bounds(i: int, width: nat, height: nat)
    requires
        0 <= i < width * height,
    ensures
        0 <= column(i, width) < width,
        0 <= row(i, width) < height,
        i == row(i, width) * width + column(i, width),
{
    let w = width as int;
    let h = height as int;
    assert(w > 0) by (nonlinear_arith)
        requires
            0 <= i < w * h,
            w >= 0,
            h >= 0,
    ;
    vstd::arithmetic::div_mod::lemma_fundamental_div_mod(i, w);
    vstd::arithmetic::div_mod::lemma_mod_pos_bound(i, w);
    vstd::arithmetic::div_mod::lemma_div_pos_is_pos(i, w);
    let q = i / w;
    let m = i % w;
    assert(q < h) by (nonlinear_arith)
        requires
            i == w * q + m,
            0 <= m,
            i < w * h,
            w > 0,
    ;
    assert(i == q * w + m) by (nonlinear_arith)
        requires
            i == w * q + m,
    ;
}

impl Canvas {
    /// Dimensions of the raster in pixels.
    pub closed spec fn spec_size(&self) -> Size {
        self.size
    }

    /// Pixels of the raster, row by row from the top-left corner.
    pub closed spec fn pixels(&self) -> Seq<Rgba8> {
        pixmap_pixels(self.pixmap)
    }

    /// Pixels of the last submitted texture, if any was submitted.
    pub closed spec fn surface_pixels(&self) -> Option<Seq<Rgba8>> {
        match self.surface {
            Some(s) => Some(pixmap_pixels(s)),
            None => None,
        }
    }

    /// Dimensions of the last submitted texture.
    pub closed spec fn spec_surface_size(&self) -> Size {
        self.surface_size
    }

    pub closed spec fn spec_quad(&self) -> Quad {
        self.quad
    }

    pub closed spec fn wf(&self) -> bool {
        &&& valid_raster_size(self.size.width, self.size.height)
        &&& pixmap_width(self.pixmap) == self.size.width
        &&& pixmap_pixels(self.pixmap).len() == self.size.width * self.size.height
        &&& self.surface matches Some(s) ==> {
            &&& valid_raster_size(self.surface_size.width, self.surface_size.height)
            &&& pixmap_width(s) == self.surface_size.width
            &&& pixmap_pixels(s).len() == self.surface_size.width * self.surface_size.height
        }
    }

    /// Number of pixels of a raster of the canvas's size.
    pub open spec fn area(&self) -> nat {
        (self.spec_size().width * self.spec_size().height) as nat
    }

    /// Whether the pixel at `i` lies inside `rect`.
    pub open spec fn covers(&self, rect: Rect, i: int) -> bool {
        rect.contains(column(i, self.spec_size().width as nat), row(i, self.spec_size().width as nat))
    }

    /// Whether painting `rect` here is exact: the part of `rect` on the
    /// canvas is empty, or its far edges are exact in the fill's `f32`
    /// geometry (always so on canvases up to `MAX_EXACT_EDGE` per side).
    pub open spec fn exact_fill(&self, rect: Rect) -> bool {
        let right = if rect.x + rect.width <= self.spec_size().width {
            rect.x + rect.width
        } else {
            self.spec_size().width as int
        };
        let bottom = if rect.y + rect.height <= self.spec_size().height {
            rect.y + rect.height
        } else {
            self.spec_size().height as int
        };
        rect.x >= right || rect.y >= bottom || (right <= MAX_EXACT_EDGE && bottom <= MAX_EXACT_EDGE)
    }

    /// `after` is `before` with its raster, but nothing else, changed.
    pub open spec fn same_frame(before: Canvas, after: Canvas) -> bool {
        &&& after.spec_size() == before.spec_size()
        &&& after.spec_quad() == before.spec_quad()
        &&& after.surface_pixels() == before.surface_pixels()
        &&& after.spec_surface_size() == before.spec_surface_size()
    }

    /// `after` is `before` cleared to `color`.
    pub open spec fn cleared(before: Canvas, after: Canvas, color: Color) -> bool {
        &&& Canvas::same_frame(before, after)
        &&& after.pixels() == Seq::new(
            before.area(),
            |i: int| premultiplied(color.r, color.g, color.b, color.a),
        )
        &&& color.is_opaque() ==> forall|i: int|
            0 <= i < before.area() ==> #[trigger] after.pixels()[i] == color.opaque_pixel()
    }

    /// `after` is `before` with `rect` painted in `color`: where the fill is
    /// exact, pixels outside `rect` keep their value and pixels inside take
    /// the colour composited over them (the colour itself, if opaque).
    pub open spec fn painted(before: Canvas, after: Canvas, rect: Rect, color: Color) -> bool {
        &&& Canvas::same_frame(before, after)
        &&& after.pixels().len() == before.pixels().len()
        &&& before.exact_fill(rect) ==> forall|i: int|
            0 <= i < before.area() ==> {
                &&& !before.covers(rect, i) ==> #[trigger] after.pixels()[i] == before.pixels()[i]
                &&& before.covers(rect, i) ==> after.pixels()[i] == blended(
                    before.pixels()[i],
                    color.r,
                    color.g,
                    color.b,
                    color.a,
                )
                &&& before.covers(rect, i) && color.is_opaque() ==> after.pixels()[i]
                    == color.opaque_pixel()
            }
    }

    /// `after` is `before` with its raster handed over as the texture.
    pub open spec fn submitted(before: Canvas, after: Canvas) -> bool {
        &&& after.spec_size() == before.spec_size()
        &&& after.spec_quad() == before.spec_quad()
        &&& after.pixels() == before.pixels()
        &&& after.surface_pixels() == Some(before.pixels())
        &&& after.spec_surface_size() == before.spec_size()
    }

    /// A transparent canvas of `size`, projected onto `quad`.
    pub fn new(size: Size, quad: Quad) -> (c: Canvas)
        requires
            valid_raster_size(size.width, size.height),
        ensures
            c.wf(),
            c.spec_size() == size,
            c.spec_quad() == quad,
            c.pixels() == Seq::new(c.area(), |i: int| transparent()),
            c.surface_pixels() is None,
    {
        let pixmap = new_pixmap(size.width, size.height).unwrap();
        Canvas { pixmap, size, quad, surface: None, surface_size: Size { width: 0, height: 0 } }
    }

    /// Discards the raster and starts over with every pixel `color`.
    pub fn clear(&mut self, color: Color)
        requires
            old(self).wf(),
        ensures
            final(self).wf(),
            Canvas::cleared(*old(self), *final(self), color),
    {
        let mut pixmap = new_pixmap(self.size.width, self.size.height).unwrap();
        fill_pixmap(&mut pixmap, color);
        self.pixmap = pixmap;
        assert(self.pixels() =~= Seq::new(
            old(self).area(),
            |i: int| premultiplied(color.r, color.g, color.b, color.a),
        ));
    }

    /// Paints `rect` in `color` over the raster; the part of `rect` outside
    /// the canvas is dropped.
    pub fn rect(&mut self, rect: Rect, color: Color)
        requires
            old(self).wf(),
        ensures
            final(self).wf(),
            Canvas::painted(*old(self), *final(self), rect, color),
    {
        let w = self.size.width;
        let h = self.size.height;
        let right: u64 = if rect.x as u64 + rect.width as u64 <= w as u64 {
            rect.x as u64 + rect.width as u64
        } else {
            w as u64
        };
        let bottom: u64 = if rect.y as u64 + rect.height as u64 <= h as u64 {
            rect.y as u64 + rect.height as u64
        } else {
            h as u64
        };
        // rows past the largest edge coordinate are left as they are
        let bottom: u64 = if bottom <= MAX_EDGE as u64 {
            bottom
        } else {
            MAX_EDGE as u64
        };
        let ghost wn = w as nat;
        let ghost hn = h as nat;
        if rect.x as u64 >= right || rect.y as u64 >= bottom {
            assert forall|i: int|
                0 <= i < old(self).area() && old(self).exact_fill(rect) implies !old(self).covers(
                rect,
                i,
            ) by {
                lemma_pixel_in_bounds(i, wn, hn);
            }
            return;
        }
        let clipped = Rect {
            x: rect.x,
            y: rect.y,
            width: (right - rect.x as u64) as u32,
            height: (bottom - rect.y as u64) as u32,
        };
        assert(clipped.y + clipped.height <= hn);
        assert((clipped.y + clipped.height) * wn <= hn * wn) by (nonlinear_arith)
            requires
                clipped.y + clipped.height <= hn,
        ;
        assert(hn * wn == wn * hn) by (nonlinear_arith);
        fill_pixmap_rect(&mut self.pixmap, clipped, color);
        assert forall|i: int| 0 <= i < old(self).area() && old(self).exact_fill(rect) implies {
            &&& !old(self).covers(rect, i) ==> #[trigger] self.pixels()[i] == old(self).pixels()[i]
            &&& old(self).covers(rect, i) ==> self.pixels()[i] == blended(
                old(self).pixels()[i],
                color.r,
                color.g,
                color.b,
                color.a,
            )
            &&& old(self).covers(rect, i) && color.is_opaque() ==> self.pixels()[i]
                == color.opaque_pixel()
        } by {
            lemma_pixel_in_bounds(i, wn, hn);
            assert(exact_edges(clipped));
            assert(old(self).covers(rect, i) == rect_covers(clipped, i, wn));
            assert(pixmap_pixels(self.pixmap)[i] == self.pixels()[i]);
        }
    }

    /// Replaces the raster by a transparent one of `new_size` and fits the
    /// quad to it, keeping the scale the quad was computed with.
    pub fn resize(&mut self, new_size: Size)
        requires
            old(self).wf(),
            valid_raster_size(new_size.width, new_size.height),
        ensures
            final(self).wf(),
            final(self).spec_size() == new_size,
            final(self).spec_quad() == (Quad {
                width: new_size.width,
                height: new_size.height,
                scale: old(self).spec_quad().scale,
            }),
            final(self).pixels() == Seq::new(final(self).area(), |i: int| transparent()),
            final(self).surface_pixels() == old(self).surface_pixels(),
            final(self).spec_surface_size() == old(self).spec_surface_size(),
    {
        self.pixmap = new_pixmap(new_size.width, new_size.height).unwrap();
        self.size = new_size;
        self.quad = Quad { width: new_size.width, height: new_size.height, scale: self.quad.scale };
    }

    /// Hands the current raster over as the canvas's texture.
    pub fn submit(&mut self)
        requires
            old(self).wf(),
        ensures
            final(self).wf(),
            Canvas::submitted(*old(self), *final(self)),
    {
        self.surface = Some(copy_pixmap(&self.pixmap));
        self.surface_size = self.size;
    }

    /// The raster pixel at column `x`, row `y`, if it lies on the canvas.
    pub fn pixel(&self, x: u32, y: u32) -> (r: Option<Rgba8>)
        requires
            self.wf(),
        ensures
            r == if x < self.spec_size().width && y < self.spec_size().height {
                Some(self.pixels()[y * self.spec_size().width + x])
            } else {
                None
            },
    {
        if x < self.size.width && y < self.size.height {
            proof {
                lemma_index_in_bounds(x as int, y as int, self.size.width as int, self.size.height as int);
            }
            Some(read_pixel(&self.pixmap, self.size, x, y))
        } else {
            None
        }
    }

    /// The pixel at column `x`, row `y` of the last submitted texture.
    pub fn surface_pixel(&self, x: u32, y: u32) -> (r: Option<Rgba8>)
        requires
            self.wf(),
        ensures
            r == match self.surface_pixels() {
                Some(s) => if x < self.spec_surface_size().width && y < self.spec_surface_size().height {
                    Some(s[y * self.spec_surface_size().width + x])
                } else {
                    None
                },
                None => None,
            },
    {
        match &self.surface {
            Some(s) => if x < self.surface_size.width && y < self.surface_size.height {
                proof {
                    lemma_index_in_bounds(
                        x as int,
                        y as int,
                        self.surface_size.width as int,
                        self.surface_size.height as int,
                    );
                }
                Some(read_pixel(s, self.surface_size, x, y))
            } else {
                None
            },
            None => None,
        }
    }

    pub fn size(&self) -> (r: Size)
        ensures
            r == self.spec_size(),
    {
        self.size
    }

    pub fn quad(&self) -> (r: Quad)
        ensures
            r == self.spec_quad(),
    {
        self.quad
    }

    /// The last submitted texture, for upload to the graphics pipeline.
    pub fn surface(&self) -> (r: Option<&Pixmap>)
        ensures
            r is Some <==> self.surface_pixels() is Some,
            r matches Some(p) ==> Some(pixmap_pixels(*p)) == self.surface_pixels(),
    {
        match &self.surface {
            Some(s) => Some(s),
            None => None,
        }
    }
}

/// A well-formed canvas has a valid size and one pixel per position.
pub proof fn lemma_canvas_shape(c: &Canvas)
    requires
        c.wf(),
    ensures
        valid_raster_size(c.spec_size().width, c.spec_size().height),
        c.pixels().len() == c.area(),
{
}

/// Whether the pixel at `i` of a raster `width` wide lies inside `rect`.
pub open spec fn rect_covers(rect: Rect, i: int, width: nat) -> bool {
    rect.contains(column(i, width), row(i, width))
}

proof fn lemma_index_in_bounds(x: int, y: int, w: int, h: int)
    requires
        0 <= x < w,
        0 <= y < h,
    ensures
        0 <= y * w + x < w * h,
        w * y + x == y * w + x,
{
    assert(0 <= y * w + x < w * h) by (nonlinear_arith)
        requires
            0 <= x < w,
            0 <= y < h,
    ;
    assert(w * y == y * w) by (nonlinear_arith);
}

/// The pixel at column `x`, row `y` of a raster of `size`.
fn read_pixel(p: &Pixmap, size: Size, x: u32, y: u32) -> (r: Rgba8)
    requires
        pixmap_width(*p) == size.width,
        pixmap_pixels(*p).len() == size.width * size.height,
        x < size.width,
        y < size.height,
    ensures
        r == pixmap_pixels(*p)[y * size.width + x],
{
    let data = pixmap_data(p);
    proof {
        lemma_index_in_bounds(x as int, y as int, size.width as int, size.height as int);
        assert(y * size.width <= y * size.width + x);
    }
    let i: usize = y as usize * size.width as usize + x as usize;
    let pixel = (data[4 * i], data[4 * i + 1], data[4 * i + 2], data[4 * i + 3]);
    assert(pixmap_pixels(*p)[i as int] == pixel);
    pixel
}

/// Clearing to one colour, painting a rectangle in another and then
/// submitting gives a texture whose pixels outside the rectangle hold the
/// clear colour and whose pixels inside hold the rectangle's colour
/// composited over it: the rectangle's colour itself, where it is opaque.
pub proof fn lemma_clear_rect_submit(
    c0: Canvas,
    c1: Canvas,
    c2: Canvas,
    c3: Canvas,
    background: Color,
    rect: Rect,
    fill: Color,
)
    requires
        c0.wf(),
        Canvas::cleared(c0, c1, background),
        Canvas::painted(c1, c2, rect, fill),
        Canvas::submitted(c2, c3),
        c0.exact_fill(rect),
    ensures
        c3.surface_pixels() matches Some(t) && t.len() == c0.area() && forall|i: int|
            0 <= i < c0.area() ==> {
                let bg = premultiplied(background.r, background.g, background.b, background.a);
                &&& !c0.covers(rect, i) ==> #[trigger] t[i] == bg
                &&& !c0.covers(rect, i) && background.is_opaque() ==> t[i]
                    == background.opaque_pixel()
                &&& c0.covers(rect, i) ==> t[i] == blended(bg, fill.r, fill.g, fill.b, fill.a)
                &&& c0.covers(rect, i) && fill.is_opaque() ==> t[i] == fill.opaque_pixel()
            },
{
    let t = c3.surface_pixels()->Some_0;
    let bg = premultiplied(background.r, background.g, background.b, background.a);
    assert forall|i: int| 0 <= i < c0.area() implies {
        &&& !c0.covers(rect, i) ==> #[trigger] t[i] == bg
        &&& !c0.covers(rect, i) && background.is_opaque() ==> t[i] == background.opaque_pixel()
        &&& c0.covers(rect, i) ==> t[i] == blended(bg, fill.r, fill.g, fill.b, fill.a)
        &&& c0.covers(rect, i) && fill.is_opaque() ==> t[i] == fill.opaque_pixel()
    } by {
        assert(c1.pixels()[i] == bg);
        assert(t[i] == c2.pixels()[i]);
    }
}

} // verus!
