//! The registry of canvases, one per widget, and the viewport they are
//! composited into.
use vstd::prelude::*;
use crate::canvas::Canvas;
use crate::geometry::{Quad, Size, WindowExtent};
use crate::raster::{transparent, valid_raster_size};
use crate::widgets::{index_of, Widget, WidgetId};

verus! {

/// Why a registration was refused.
#[derive(Debug, Clone, Copy, PartialEq, Eq, Structural)]
pub enum RegistryError {
    /// An entry is already registered under the identifier.
    DuplicateId,
}

/// Whether no two entries share an identifier.
pub open spec fn unique_ids<T>(entries: Seq<(WidgetId, T)>) -> bool {
    forall|i: int, j: int|
        0 <= i < entries.len() && 0 <= j < entries.len() && i != j ==> #[trigger] entries[i].0.spec_name()
            != #[trigger] entries[j].0.spec_name()
}

/// Whether some entry is registered under `name`.
pub open spec fn registered<T>(entries: Seq<(WidgetId, T)>, name: Seq<char>) -> bool {
    exists|i: int| 0 <= i < entries.len() && #[trigger] entries[i].0.spec_name() == name
}

/// Whether exactly one entry is registered under `name`.
pub open spec fn registered_once<T>(entries: Seq<(WidgetId, T)>, name: Seq<char>) -> bool {
    exists|i: int|
        0 <= i < entries.len() && entries[i].0.spec_name() == name && forall|j: int|
            0 <= j < entries.len() && #[trigger] entries[j].0.spec_name() == name ==> j == i
}

/// Among entries with distinct identifiers, a registered name is registered once.
pub proof fn lemma_registered_once<T>(entries: Seq<(WidgetId, T)>, name: Seq<char>)
    requires
        unique_ids(entries),
        registered(entries, name),
    ensures
        registered_once(entries, name),
{
    let i = choose|i: int| 0 <= i < entries.len() && #[trigger] entries[i].0.spec_name() == name;
    assert forall|j: int| 0 <= j < entries.len() && #[trigger] entries[j].0.spec_name() == name implies j
        == i by {
        if j != i {
            assert(entries[i].0.spec_name() != entries[j].0.spec_name());
        }
    }
}

/// A canvas as registration creates it: transparent, never submitted, with
/// its quad fitted against `extent`.
pub open spec fn fresh_canvas(c: Canvas, size: Size, extent: WindowExtent) -> bool {
    &&& c.wf()
    &&& c.spec_size() == size
    &&& c.spec_quad() == Quad::spec_fit(size, extent)
    &&& c.pixels() == Seq::new(c.area(), |i: int| transparent())
    &&& c.surface_pixels() is None
}

pub struct Renderer {
    extent: WindowExtent,
    canvases: Vec<(WidgetId, Canvas)>,
}

impl Renderer {
    pub closed spec fn spec_extent(&self) -> WindowExtent {
        self.extent
    }

    /// The registered canvases in registration order.
    pub closed spec fn entries(&self) -> Seq<(WidgetId, Canvas)> {
        self.canvases@
    }

    pub open spec fn wf(&self) -> bool {
        &&& unique_ids(self.entries())
        &&& forall|i: int| 0 <= i < self.entries().len() ==> (#[trigger] self.entries()[i]).1.wf()
    }

    /// A renderer with no canvases, compositing into `extent`.
    pub fn new(extent: WindowExtent) -> (r: Renderer)
        ensures
            r.wf(),
            r.spec_extent() == extent,
            r.entries().len() == 0,
    {
        Renderer { extent, canvases: Vec::new() }
    }

    /// A canvas for a widget of `size` on the viewport `screen`.
    fn new_canvas(size: Size, screen: WindowExtent) -> (c: Canvas)
        requires
            valid_raster_size(size.width, size.height),
        ensures
            fresh_canvas(c, size, screen),
    {
        Canvas::new(size, Quad::fit(size, screen))
    }

    /// Registers a canvas of `canvas_size` under `id`, fitted to the current
    /// viewport; refused, with nothing changed, where `id` is taken.
    pub fn add_canvas(&mut self, id: WidgetId, canvas_size: Size) -> (r: Result<(), RegistryError>)
        requires
            old(self).wf(),
            !registered(old(self).entries(), id.spec_name()) ==> valid_raster_size(
                canvas_size.width,
                canvas_size.height,
            ),
        ensures
            final(self).wf(),
            final(self).spec_extent() == old(self).spec_extent(),
            registered_once(final(self).entries(), id.spec_name()),
            registered(old(self).entries(), id.spec_name()) ==> r == Err::<(), _>(
                RegistryError::DuplicateId,
            ) && final(self).entries() == old(self).entries(),
            !registered(old(self).entries(), id.spec_name()) ==> r is Ok && final(self).entries().len()
                == old(self).entries().len() + 1 && final(self).entries().drop_last()
                == old(self).entries() && final(self).entries().last().0 == id && fresh_canvas(
                final(self).entries().last().1,
                canvas_size,
                old(self).spec_extent(),
            ),
    {
        match index_of(&self.canvases, &id) {
            Some(i) => {
                proof {
                    assert(self.entries()[i as int].0.spec_name() == id.spec_name());
                    lemma_registered_once(self.entries(), id.spec_name());
                }
                Err(RegistryError::DuplicateId)
            },
            None => {
                let canvas = Renderer::new_canvas(canvas_size, self.extent);
                self.canvases.push((id, canvas));
                assert(self.entries().drop_last() =~= old(self).entries());
                proof {
                    let last = self.entries().len() - 1;
                    assert(self.entries()[last].0.spec_name() == id.spec_name());
                    assert forall|i: int, j: int|
                        0 <= i < self.entries().len() && 0 <= j < self.entries().len() && i != j implies #[trigger] self.entries()[i].0.spec_name()
                        != #[trigger] self.entries()[j].0.spec_name() by {
                        if i < last && j < last {
                            assert(self.entries()[i] == old(self).entries()[i]);
                            assert(self.entries()[j] == old(self).entries()[j]);
                        } else if i < last {
                            assert(self.entries()[i] == old(self).entries()[i]);
                        } else {
                            assert(self.entries()[j] == old(self).entries()[j]);
                        }
                    }
                    lemma_registered_once(self.entries(), id.spec_name());
                }
                Ok(())
            },
        }
    }

    /// The canvas registered under `id`.
    pub fn get_canvas(&self, id: &WidgetId) -> (r: Option<&Canvas>)
        ensures
            r is Some <==> registered(self.entries(), id.spec_name()),
            r matches Some(c) ==> exists|i: int|
                0 <= i < self.entries().len() && #[trigger] self.entries()[i].0.spec_name()
                    == id.spec_name() && self.entries()[i].1 == *c,
    {
        match index_of(&self.canvases, id) {
            Some(i) => Some(&self.canvases[i].1),
            None => None,
        }
    }

    /// Draws `widget` onto the canvas at `index` in registration order.
    pub fn draw_at<W: Widget>(&mut self, index: usize, widget: &W)
        requires
            old(self).wf(),
            index < old(self).entries().len(),
        ensures
            final(self).wf(),
            final(self).spec_extent() == old(self).spec_extent(),
            final(self).entries().len() == old(self).entries().len(),
            final(self).entries()[index as int].0 == old(self).entries()[index as int].0,
            final(self).entries()[index as int].1.spec_size() == old(self).entries()[index as int].1.spec_size(),
            widget.draws(old(self).entries()[index as int].1, final(self).entries()[index as int].1),
            forall|j: int|
                0 <= j < old(self).entries().len() && j != index ==> #[trigger] final(self).entries()[j]
                    == old(self).entries()[j],
    {
        let entry = &mut self.canvases[index];
        widget.draw(&mut entry.1);
        assert forall|i: int, j: int|
            0 <= i < self.entries().len() && 0 <= j < self.entries().len() && i != j implies #[trigger] self.entries()[i].0.spec_name()
            != #[trigger] self.entries()[j].0.spec_name() by {
            assert(old(self).entries()[i].0 == self.entries()[i].0);
            assert(old(self).entries()[j].0 == self.entries()[j].0);
        }
    }

    pub fn get_extent(&self) -> (r: WindowExtent)
        ensures
            r == self.spec_extent(),
    {
        self.extent
    }

    /// Moves the viewport to `extent`. Registered canvases keep the quads
    /// they were fitted with.
    pub fn resize(&mut self, extent: WindowExtent)
        ensures
            final(self).spec_extent() == extent,
            final(self).entries() == old(self).entries(),
    {
        self.extent = extent;
    }
}

} // verus!
