//! The per-frame driver: widgets, their canvases, hit-testing and drawing.
use vstd::prelude::*;
use crate::canvas::Canvas;
use crate::geometry::{Pos, Size, WindowExtent};
use crate::raster::valid_raster_size;
use crate::renderer::{
    fresh_canvas, lemma_registered_once, registered, registered_once, unique_ids, RegistryError,
    Renderer,
};
use crate::widgets::{index_of, Event, Widget, WidgetId};

verus! {

/// Whether `cursor` lies in the box from `position` to `position + size`,
/// edges included.
pub open spec fn spec_inside(position: Pos, size: Size, cursor: Pos) -> bool {
    &&& position.x <= cursor.x <= position.x + size.width
    &&& position.y <= cursor.y <= position.y + size.height
}

/// The event a widget at `position` of `size` receives: a click or a hover
/// where the cursor is inside it, nothing where it is outside.
pub open spec fn spec_hit(position: Pos, size: Size, cursor: Pos, clicked: bool) -> Option<Event> {
    if spec_inside(position, size, cursor) {
        if clicked {
            Some(Event::Click)
        } else {
            Some(Event::Hover)
        }
    } else {
        None
    }
}

pub fn hit_test(position: Pos, size: Size, cursor: Pos, clicked: bool) -> (r: Option<Event>)
    ensures
        r == spec_hit(position, size, cursor, clicked),
{
    let inside = position.x <= cursor.x && cursor.x as u64 <= position.x as u64 + size.width as u64
        && position.y <= cursor.y && cursor.y as u64 <= position.y as u64 + size.height as u64;
    if inside {
        if clicked {
            Some(Event::Click)
        } else {
            Some(Event::Hover)
        }
    } else {
        None
    }
}

pub struct Context<W: Widget> {
    renderer: Renderer,
    widgets: Vec<(WidgetId, W)>,
}

impl<W: Widget> Context<W> {
    pub closed spec fn spec_renderer(&self) -> Renderer {
        self.renderer
    }

    /// The registered widgets in registration order.
    pub closed spec fn entries(&self) -> Seq<(WidgetId, W)> {
        self.widgets@
    }

    /// The canvas of the widget at `i`.
    pub open spec fn canvas_at(&self, i: int) -> Canvas {
        self.spec_renderer().entries()[i].1
    }

    pub open spec fn widget_at(&self, i: int) -> W {
        self.entries()[i].1
    }

    /// Every widget has exactly one canvas, registered under its identifier
    /// and sized as the widget.
    pub open spec fn wf(&self) -> bool {
        &&& self.spec_renderer().wf()
        &&& unique_ids(self.entries())
        &&& self.entries().len() == self.spec_renderer().entries().len()
        &&& forall|i: int|
            0 <= i < self.entries().len() ==> {
                &&& (#[trigger] self.entries()[i]).0 == self.spec_renderer().entries()[i].0
                &&& self.canvas_at(i).spec_size() == self.entries()[i].1.spec_size()
            }
    }

    /// `after` and `r` are what registering `widget` under `id` in `before`
    /// gives: a refusal that changes nothing where `id` is taken, else the
    /// widget appended with a fresh canvas of its size; either way exactly
    /// one widget and one canvas are registered under `id`.
    pub open spec fn registration(
        before: Context<W>,
        after: Context<W>,
        id: WidgetId,
        widget: W,
        r: Result<(), RegistryError>,
    ) -> bool {
        &&& after.spec_renderer().spec_extent() == before.spec_renderer().spec_extent()
        &&& registered_once(after.entries(), id.spec_name())
        &&& registered_once(after.spec_renderer().entries(), id.spec_name())
        &&& registered(before.entries(), id.spec_name()) ==> r == Err::<(), _>(
            RegistryError::DuplicateId,
        ) && after.entries() == before.entries() && after.spec_renderer() == before.spec_renderer()
        &&& !registered(before.entries(), id.spec_name()) ==> r is Ok && after.entries()
            == before.entries().push((id, widget)) && after.spec_renderer().entries().drop_last()
            == before.spec_renderer().entries() && fresh_canvas(
            after.spec_renderer().entries().last().1,
            widget.spec_size(),
            before.spec_renderer().spec_extent(),
        )
    }

    /// An empty context compositing into `extent`.
    pub fn new(extent: WindowExtent) -> (c: Context<W>)
        ensures
            c.wf(),
            c.entries().len() == 0,
            c.spec_renderer().spec_extent() == extent,
    {
        Context { renderer: Renderer::new(extent), widgets: Vec::new() }
    }

    /// Registers `widget` under `id` with a fresh canvas of its size;
    /// refused, with nothing changed, where `id` is taken.
    pub fn add_widget(&mut self, id: WidgetId, widget: W) -> (r: Result<(), RegistryError>)
        requires
            old(self).wf(),
            !registered(old(self).entries(), id.spec_name()) ==> valid_raster_size(
                widget.spec_size().width,
                widget.spec_size().height,
            ),
        ensures
            final(self).wf(),
            Context::registration(*old(self), *final(self), id, widget, r),
    {
        match index_of(&self.widgets, &id) {
            Some(i) => {
                proof {
                    assert(self.entries()[i as int].0.spec_name() == id.spec_name());
                    assert(self.spec_renderer().entries()[i as int].0 == self.entries()[i as int].0);
                    lemma_registered_once(self.entries(), id.spec_name());
                    lemma_registered_once(self.spec_renderer().entries(), id.spec_name());
                }
                Err(RegistryError::DuplicateId)
            },
            None => {
                let size = widget.size();
                proof {
                    assert(!registered(self.spec_renderer().entries(), id.spec_name())) by {
                        if registered(self.spec_renderer().entries(), id.spec_name()) {
                            let k = choose|k: int|
                                0 <= k < self.spec_renderer().entries().len()
                                    && #[trigger] self.spec_renderer().entries()[k].0.spec_name()
                                    == id.spec_name();
                            assert(self.entries()[k].0 == self.spec_renderer().entries()[k].0);
                        }
                    }
                }
                let added = self.renderer.add_canvas(id, size);
                self.widgets.push((id, widget));
                assert(self.spec_renderer().entries().len() == self.entries().len());
                assert forall|i: int| 0 <= i < self.entries().len() implies {
                    &&& (#[trigger] self.entries()[i]).0 == self.spec_renderer().entries()[i].0
                    &&& self.canvas_at(i).spec_size() == self.entries()[i].1.spec_size()
                } by {
                    if i < old(self).entries().len() {
                        assert(self.spec_renderer().entries()[i] == self.spec_renderer().entries().drop_last()[i]);
                        assert(old(self).entries()[i] == self.entries()[i]);
                    }
                }
                proof {
                    let last = self.entries().len() - 1;
                    assert(self.entries()[last].0.spec_name() == id.spec_name());
                    lemma_registered_once(self.entries(), id.spec_name());
                }
                added
            },
        }
    }

    pub fn window_extent(&self) -> (r: WindowExtent)
        ensures
            r == self.spec_renderer().spec_extent(),
    {
        self.renderer.get_extent()
    }

    /// Moves the viewport; widgets and canvases stay as they are, quads included.
    pub fn resize(&mut self, new_extent: WindowExtent)
        requires
            old(self).wf(),
        ensures
            final(self).wf(),
            final(self).spec_renderer().spec_extent() == new_extent,
            final(self).spec_renderer().entries() == old(self).spec_renderer().entries(),
            final(self).entries() == old(self).entries(),
    {
        self.renderer.resize(new_extent);
    }

    /// The event that the widget at `i` receives for a cursor at `cursor`.
    pub open spec fn event_at(&self, i: int, cursor: Pos, clicked: bool) -> Option<Event> {
        spec_hit(self.widget_at(i).spec_position(), self.widget_at(i).spec_size(), cursor, clicked)
    }

    /// One widget's share of a frame: hit-tests the widget at `index`
    /// against the cursor, hands it the resulting event and draws it onto
    /// its canvas. Returns the widget's identifier, whose canvas is then
    /// ready to be rendered.
    pub fn update_widget(&mut self, index: usize, cursor: Pos, clicked: bool) -> (id: WidgetId)
        requires
            old(self).wf(),
            index < old(self).entries().len(),
        ensures
            final(self).wf(),
            id == old(self).entries()[index as int].0,
            final(self).spec_renderer().spec_extent() == old(self).spec_renderer().spec_extent(),
            final(self).entries().len() == old(self).entries().len(),
            final(self).entries()[index as int].0 == id,
            final(self).widget_at(index as int) == old(self).widget_at(index as int).after_event(
                old(self).event_at(index as int, cursor, clicked),
            ),
            final(self).widget_at(index as int).spec_position() == old(self).widget_at(
                index as int,
            ).spec_position(),
            final(self).widget_at(index as int).spec_size() == old(self).widget_at(
                index as int,
            ).spec_size(),
            final(self).widget_at(index as int).draws(
                old(self).canvas_at(index as int),
                final(self).canvas_at(index as int),
            ),
            forall|j: int|
                0 <= j < old(self).entries().len() && j != index ==> #[trigger] final(self).entries()[j]
                    == old(self).entries()[j] && final(self).canvas_at(j) == old(self).canvas_at(j),
    {
        let entry = &mut self.widgets[index];
        let id = entry.0;
        let event = hit_test(entry.1.position(), entry.1.size(), cursor, clicked);
        entry.1.event(event);
        self.renderer.draw_at(index, &self.widgets[index].1);
        assert forall|i: int, j: int|
            0 <= i < self.entries().len() && 0 <= j < self.entries().len() && i != j implies #[trigger] self.entries()[i].0.spec_name()
            != #[trigger] self.entries()[j].0.spec_name() by {
            assert(old(self).entries()[i].0 == self.entries()[i].0);
            assert(old(self).entries()[j].0 == self.entries()[j].0);
        }
        assert forall|i: int| 0 <= i < self.entries().len() implies {
            &&& (#[trigger] self.entries()[i]).0 == self.spec_renderer().entries()[i].0
            &&& self.canvas_at(i).spec_size() == self.entries()[i].1.spec_size()
        } by {
            if i != index {
                assert(old(self).entries()[i] == self.entries()[i]);
                assert(self.spec_renderer().entries()[i] == old(self).spec_renderer().entries()[i]);
            }
        }
        id
    }

    /// One frame: every widget, in registration order, is hit-tested
    /// against the cursor, receives its event and is drawn onto its canvas.
    pub fn execute(&mut self, cursor_pos: Pos, clicked: bool)
        requires
            old(self).wf(),
        ensures
            final(self).wf(),
            final(self).spec_renderer().spec_extent() == old(self).spec_renderer().spec_extent(),
            final(self).entries().len() == old(self).entries().len(),
            forall|i: int|
                0 <= i < old(self).entries().len() ==> {
                    &&& (#[trigger] final(self).entries()[i]).0 == old(self).entries()[i].0
                    &&& final(self).widget_at(i) == old(self).widget_at(i).after_event(
                        old(self).event_at(i, cursor_pos, clicked),
                    )
                    &&& final(self).widget_at(i).spec_position() == old(self).widget_at(i).spec_position()
                    &&& final(self).widget_at(i).spec_size() == old(self).widget_at(i).spec_size()
                    &&& final(self).widget_at(i).draws(old(self).canvas_at(i), final(self).canvas_at(i))
                },
    {
        let n = self.widgets.len();
        let mut i: usize = 0;
        while i < n
            invariant
                self.wf(),
                n == self.entries().len(),
                n == old(self).entries().len(),
                i <= n,
                self.spec_renderer().spec_extent() == old(self).spec_renderer().spec_extent(),
                forall|k: int|
                    0 <= k < i ==> {
                        &&& (#[trigger] self.entries()[k]).0 == old(self).entries()[k].0
                        &&& self.widget_at(k) == old(self).widget_at(k).after_event(
                            old(self).event_at(k, cursor_pos, clicked),
                        )
                        &&& self.widget_at(k).spec_position() == old(self).widget_at(k).spec_position()
                        &&& self.widget_at(k).spec_size() == old(self).widget_at(k).spec_size()
                        &&& self.widget_at(k).draws(old(self).canvas_at(k), self.canvas_at(k))
                    },
                forall|k: int|
                    i <= k < n ==> #[trigger] self.entries()[k] == old(self).entries()[k]
                        && self.canvas_at(k) == old(self).canvas_at(k),
            decreases n - i,
        {
            let ghost before = *self;
            self.update_widget(i, cursor_pos, clicked);
            assert forall|k: int| 0 <= k < i implies {
                &&& (#[trigger] self.entries()[k]).0 == old(self).entries()[k].0
                &&& self.widget_at(k) == old(self).widget_at(k).after_event(
                    old(self).event_at(k, cursor_pos, clicked),
                )
                &&& self.widget_at(k).spec_position() == old(self).widget_at(k).spec_position()
                &&& self.widget_at(k).spec_size() == old(self).widget_at(k).spec_size()
                &&& self.widget_at(k).draws(old(self).canvas_at(k), self.canvas_at(k))
            } by {
                assert(before.entries()[k] == self.entries()[k]);
            }
            assert(before.entries()[i as int] == old(self).entries()[i as int]);
            i = i + 1;
            assert forall|k: int| i <= k < n implies #[trigger] self.entries()[k] == old(self).entries()[k]
                && self.canvas_at(k) == old(self).canvas_at(k) by {
                assert(before.entries()[k] == old(self).entries()[k]);
                assert(before.canvas_at(k) == old(self).canvas_at(k));
                assert(before.entries()[k] == self.entries()[k]);
                assert(before.canvas_at(k) == self.canvas_at(k));
            }
        }
    }

    /// Number of registered widgets.
    pub fn len(&self) -> (r: usize)
        ensures
            r == self.entries().len(),
    {
        self.widgets.len()
    }

    /// The identifier of the widget at `index` in registration order.
    pub fn id_at(&self, index: usize) -> (r: WidgetId)
        requires
            index < self.entries().len(),
        ensures
            r == self.entries()[index as int].0,
    {
        self.widgets[index].0
    }

    /// The widget registered under `id`.
    pub fn widget(&self, id: &WidgetId) -> (r: Option<&W>)
        ensures
            r is Some <==> registered(self.entries(), id.spec_name()),
            r matches Some(w) ==> exists|i: int|
                0 <= i < self.entries().len() && #[trigger] self.entries()[i].0.spec_name()
                    == id.spec_name() && self.entries()[i].1 == *w,
    {
        match index_of(&self.widgets, id) {
            Some(i) => {
                assert(self.entries()[i as int].0.spec_name() == id.spec_name());
                Some(&self.widgets[i].1)
            },
            None => None,
        }
    }

    /// The canvases and the viewport, for rendering.
    pub fn renderer(&self) -> (r: &Renderer)
        ensures
            *r == self.spec_renderer(),
    {
        &self.renderer
    }
}

/// Registering an identifier a second time is refused: the context keeps
/// exactly one widget and one canvas under it, and the widget is the one
/// registered first.
pub proof fn lemma_register_twice<W: Widget>(
    c0: Context<W>,
    c1: Context<W>,
    c2: Context<W>,
    id: WidgetId,
    first: W,
    second: W,
    r1: Result<(), RegistryError>,
    r2: Result<(), RegistryError>,
)
    requires
        c0.wf(),
        !registered(c0.entries(), id.spec_name()),
        Context::registration(c0, c1, id, first, r1),
        Context::registration(c1, c2, id, second, r2),
    ensures
        r1 is Ok,
        r2 == Err::<(), _>(RegistryError::DuplicateId),
        c2.entries() == c1.entries(),
        c2.spec_renderer() == c1.spec_renderer(),
        registered_once(c2.entries(), id.spec_name()),
        registered_once(c2.spec_renderer().entries(), id.spec_name()),
        c2.entries().last() == (id, first),
{
    assert(c1.entries().last() == (id, first));
    assert(c1.entries()[c1.entries().len() - 1].0.spec_name() == id.spec_name());
}

/// Registering two distinct identifiers keeps both: each has exactly one
/// widget and one canvas, and the first widget stays where it was put.
pub proof fn lemma_register_distinct<W: Widget>(
    c0: Context<W>,
    c1: Context<W>,
    c2: Context<W>,
    id1: WidgetId,
    id2: WidgetId,
    w1: W,
    w2: W,
    r1: Result<(), RegistryError>,
    r2: Result<(), RegistryError>,
)
    requires
        c0.wf(),
        c1.wf(),
        c2.wf(),
        id1.spec_name() != id2.spec_name(),
        !registered(c0.entries(), id1.spec_name()),
        !registered(c0.entries(), id2.spec_name()),
        Context::registration(c0, c1, id1, w1, r1),
        Context::registration(c1, c2, id2, w2, r2),
    ensures
        r1 is Ok,
        r2 is Ok,
        c2.entries() == c0.entries().push((id1, w1)).push((id2, w2)),
        registered_once(c2.entries(), id1.spec_name()),
        registered_once(c2.entries(), id2.spec_name()),
        registered_once(c2.spec_renderer().entries(), id1.spec_name()),
        registered_once(c2.spec_renderer().entries(), id2.spec_name()),
{
    let n = c0.entries().len();
    assert(c2.entries()[n as int] == (id1, w1));
    if registered(c1.entries(), id2.spec_name()) {
        let k = choose|k: int|
            0 <= k < c1.entries().len() && #[trigger] c1.entries()[k].0.spec_name() == id2.spec_name();
        if k < n {
            assert(c1.entries()[k] == c0.entries()[k]);
        }
    }
    assert(c2.entries()[n as int].0.spec_name() == id1.spec_name());
    assert(c2.spec_renderer().entries()[n as int] == c1.spec_renderer().entries()[n as int]);
    assert(c1.spec_renderer().entries()[n as int].0 == c1.entries()[n as int].0);
    assert(registered(c2.entries(), id1.spec_name()));
    assert(registered(c2.spec_renderer().entries(), id1.spec_name()));
    lemma_registered_once(c2.entries(), id1.spec_name());
    lemma_registered_once(c2.spec_renderer().entries(), id1.spec_name());
}

} // verus!
