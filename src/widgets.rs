//! Widgets: elements with a fixed place and size that react to pointer
//! events and paint themselves onto a canvas.
use vstd::prelude::*;
use crate::canvas::{lemma_canvas_shape, lemma_pixel_in_bounds, Canvas};
use crate::geometry::{Color, Pos, Rect, Size};
use crate::raster::{column, row, Rgba8};

verus! {

/// A stable name under which a widget is registered.
#[derive(Debug, Clone, Copy, Hash)]
pub struct WidgetId(pub &'static str);

/// Whether two strings hold the same characters.
fn same_chars(a: &str, b: &str) -> (r: bool)
    ensures
        r == (a@ == b@),
{
    let n = a.unicode_len();
    if n != b.unicode_len() {
        return false;
    }
    let mut i: usize = 0;
    while i < n
        invariant
            n == a@.len(),
            n == b@.len(),
            i <= n,
            forall|j: int| 0 <= j < i ==> a@[j] == b@[j],
        decreases n - i,
    {
        if a.get_char(i) != b.get_char(i) {
            return false;
        }
        i = i + 1;
    }
    assert(a@ =~= b@);
    true
}

impl PartialEq for WidgetId {
    fn eq(&self, other: &WidgetId) -> (r: bool)
        ensures
            r == (self.0@ == other.0@),
    {
        same_chars(self.0, other.0)
    }
}

impl vstd::std_specs::cmp::PartialEqSpecImpl for WidgetId {
    open spec fn obeys_eq_spec() -> bool {
        true
    }

    open spec fn eq_spec(&self, other: &WidgetId) -> bool {
        self.0@ == other.0@
    }
}

impl Eq for WidgetId {}

impl WidgetId {
    /// The identifier's text.
    pub open spec fn spec_name(self) -> Seq<char> {
        self.0@
    }

    pub fn same(&self, other: &WidgetId) -> (r: bool)
        ensures
            r == (self.spec_name() == other.spec_name()),
    {
        same_chars(self.0, other.0)
    }

    /// The identifier's text, for messages.
    pub fn name(&self) -> (r: &'static str)
        ensures
            r@ == self.spec_name(),
    {
        self.0
    }
}

/// What the pointer does to a widget in one frame.
#[derive(Debug, Clone, Copy, PartialEq, Eq, Structural)]
pub enum Event {
    Click,
    Hover,
}

/// An element that the context places, hit-tests and draws every frame.
pub trait Widget: Sized {
    spec fn spec_position(&self) -> Pos;

    spec fn spec_size(&self) -> Size;

    /// The widget once it has received `event`.
    spec fn after_event(&self, event: Option<Event>) -> Self;

    /// Whether drawing this widget may turn canvas `before` into `after`.
    spec fn draws(&self, before: Canvas, after: Canvas) -> bool;

    fn position(&self) -> (r: Pos)
        ensures
            r == self.spec_position(),
    ;

    fn size(&self) -> (r: Size)
        ensures
            r == self.spec_size(),
    ;

    fn draw(&self, canvas: &mut Canvas)
        requires
            old(canvas).wf(),
        ensures
            final(canvas).wf(),
            final(canvas).spec_size() == old(canvas).spec_size(),
            final(canvas).spec_quad() == old(canvas).spec_quad(),
            self.draws(*old(canvas), *final(canvas)),
    ;

    fn event(&mut self, event: Option<Event>)
        ensures
            *final(self) == old(self).after_event(event),
            final(self).spec_position() == old(self).spec_position(),
            final(self).spec_size() == old(self).spec_size(),
    ;
}

/// Height in pixels of the bar a button paints.
pub const BAR_HEIGHT: u32 = 25;

pub open spec fn background_color() -> Color {
    Color { r: 255, g: 255, b: 255, a: 255 }
}

pub open spec fn click_color() -> Color {
    Color { r: 255, g: 0, b: 0, a: 255 }
}

pub open spec fn hover_color() -> Color {
    Color { r: 0, g: 255, b: 0, a: 255 }
}

pub open spec fn idle_color() -> Color {
    Color { r: 0, g: 0, b: 255, a: 255 }
}

/// A push button: a coloured bar that shows whether it is clicked or hovered.
pub struct Button {
    position: Pos,
    size: Size,
    hover: bool,
    click: bool,
}

impl Button {
    pub closed spec fn hovered(&self) -> bool {
        self.hover
    }

    pub closed spec fn clicked(&self) -> bool {
        self.click
    }

    /// The bar's colour: clicked over hovered over idle.
    pub open spec fn bar_color(&self) -> Color {
        if self.clicked() {
            click_color()
        } else if self.hovered() {
            hover_color()
        } else {
            idle_color()
        }
    }

    /// The pixel a drawn button leaves at index `i` of a canvas `width` wide.
    pub open spec fn painted_pixel(&self, i: int, width: nat) -> Rgba8 {
        if row(i, width) < BAR_HEIGHT && column(i, width) < self.spec_size().width {
            self.bar_color().opaque_pixel()
        } else {
            background_color().opaque_pixel()
        }
    }

    /// The bar along the top of the button's canvas.
    pub open spec fn bar(&self) -> Rect {
        Rect { x: 0, y: 0, width: self.spec_size().width, height: BAR_HEIGHT as u32 }
    }

    /// The button after each of `events` in turn.
    pub open spec fn replay(self, events: Seq<Option<Event>>) -> Button
        decreases events.len(),
    {
        if events.len() == 0 {
            self
        } else {
            self.replay(events.drop_last()).after_event(events.last())
        }
    }

    pub fn new(position: Pos, size: Size) -> (b: Button)
        ensures
            b.spec_position() == position,
            b.spec_size() == size,
            !b.hovered(),
            !b.clicked(),
    {
        Button { position, size, hover: false, click: false }
    }

    pub fn is_hovered(&self) -> (r: bool)
        ensures
            r == self.hovered(),
    {
        self.hover
    }

    pub fn is_clicked(&self) -> (r: bool)
        ensures
            r == self.clicked(),
    {
        self.click
    }

    fn fill_color(&self) -> (c: Color)
        ensures
            c == self.bar_color(),
    {
        if self.click {
            Color::from_rgba8(255, 0, 0, 255)
        } else if self.hover {
            Color::from_rgba8(0, 255, 0, 255)
        } else {
            Color::from_rgba8(0, 0, 255, 255)
        }
    }
}

impl Widget for Button {
    closed spec fn spec_position(&self) -> Pos {
        self.position
    }

    closed spec fn spec_size(&self) -> Size {
        self.size
    }

    closed spec fn after_event(&self, event: Option<Event>) -> Button {
        match event {
            Some(Event::Click) => Button { click: true, ..*self },
            Some(Event::Hover) => Button { hover: true, ..*self },
            None => Button { click: false, hover: false, ..*self },
        }
    }

    closed spec fn draws(&self, before: Canvas, after: Canvas) -> bool {
        &&& after.spec_size() == before.spec_size()
        &&& after.spec_quad() == before.spec_quad()
        &&& after.surface_pixels() == Some(after.pixels())
        &&& after.spec_surface_size() == after.spec_size()
        &&& after.pixels().len() == before.area()
        &&& before.exact_fill(self.bar()) ==> forall|i: int|
            0 <= i < before.area() ==> #[trigger] after.pixels()[i] == self.painted_pixel(
                i,
                before.spec_size().width as nat,
            )
    }

    fn position(&self) -> (r: Pos) {
        self.position
    }

    fn size(&self) -> (r: Size) {
        self.size
    }

    fn draw(&self, canvas: &mut Canvas) {
        let ghost before = *canvas;
        canvas.clear(Color::from_rgba8(255, 255, 255, 255));
        let ghost cleared = *canvas;
        let color = self.fill_color();
        let bar = Rect::from_xywh(0, 0, self.size.width, BAR_HEIGHT);
        canvas.rect(bar, color);
        let ghost painted = *canvas;
        canvas.submit();
        proof {
            let w = before.spec_size().width as nat;
            let h = before.spec_size().height as nat;
            lemma_canvas_shape(&before);
            lemma_canvas_shape(&painted);
            lemma_canvas_shape(canvas);
            if before.exact_fill(self.bar()) {
                assert forall|i: int| 0 <= i < before.area() implies #[trigger] canvas.pixels()[i]
                    == self.painted_pixel(i, w) by {
                    lemma_pixel_in_bounds(i, w, h);
                    assert(cleared.pixels()[i] == background_color().opaque_pixel());
                    assert(cleared.covers(bar, i) == (row(i, w) < BAR_HEIGHT && column(i, w)
                        < self.spec_size().width));
                    assert(painted.pixels()[i] == canvas.pixels()[i]);
                }
            }
        }
    }

    fn event(&mut self, event: Option<Event>) {
        match event {
            Some(Event::Click) => self.click = true,
            Some(Event::Hover) => self.hover = true,
            None => {
                self.click = false;
                self.hover = false;
            },
        }
    }
}

/// The index of the entry registered under `id`, if any.
pub fn index_of<T>(entries: &Vec<(WidgetId, T)>, id: &WidgetId) -> (r: Option<usize>)
    ensures
        match r {
            Some(i) => i < entries@.len() && entries@[i as int].0.spec_name() == id.spec_name(),
            None => forall|i: int|
                0 <= i < entries@.len() ==> #[trigger] entries@[i].0.spec_name() != id.spec_name(),
        },
{
    let mut i: usize = 0;
    while i < entries.len()
        invariant
            i <= entries@.len(),
            forall|j: int| 0 <= j < i ==> #[trigger] entries@[j].0.spec_name() != id.spec_name(),
        decreases entries@.len() - i,
    {
        if entries[i].0.same(id) {
            return Some(i);
        }
        i = i + 1;
    }
    None
}

/// A button's state machine: a click sets the click state, a hover sets
/// the hover state, and no event clears both; place and size never change.
pub proof fn lemma_button_event(b: Button, event: Option<Event>)
    ensures
        b.after_event(event).spec_position() == b.spec_position(),
        b.after_event(event).spec_size() == b.spec_size(),
        b.after_event(event).clicked() == match event {
            Some(Event::Click) => true,
            Some(Event::Hover) => b.clicked(),
            None => false,
        },
        b.after_event(event).hovered() == match event {
            Some(Event::Hover) => true,
            Some(Event::Click) => b.hovered(),
            None => false,
        },
{
}

/// What drawing a button does to a canvas: a cleared background, the bar
/// in the button's colour along the top, and the result submitted.
pub proof fn lemma_button_draws(b: Button, before: Canvas, after: Canvas)
    requires
        b.draws(before, after),
    ensures
        after.spec_size() == before.spec_size(),
        after.spec_quad() == before.spec_quad(),
        after.surface_pixels() == Some(after.pixels()),
        after.spec_surface_size() == after.spec_size(),
        after.pixels().len() == before.area(),
        before.exact_fill(b.bar()) ==> forall|i: int|
            0 <= i < before.area() ==> #[trigger] after.pixels()[i] == b.painted_pixel(
                i,
                before.spec_size().width as nat,
            ),
{
}

/// Whatever events a button has received before, receiving no event clears
/// both its hover and its click state.
pub proof fn lemma_no_event_resets(b: Button, events: Seq<Option<Event>>)
    ensures
        !b.replay(events.push(None)).hovered(),
        !b.replay(events.push(None)).clicked(),
{
    assert(events.push(None).drop_last() =~= events);
}

/// A click sets a button's click state, and drawing it afterwards paints its
/// bar in the click colour, whether it is hovered or not.
pub proof fn lemma_click_draws_click_color(b: Button, before: Canvas, after: Canvas)
    requires
        before.wf(),
        before.exact_fill(b.bar()),
        b.after_event(Some(Event::Click)).draws(before, after),
    ensures
        b.after_event(Some(Event::Click)).clicked(),
        b.after_event(Some(Event::Click)).bar_color() == click_color(),
        forall|i: int|
            0 <= i < before.area() && row(i, before.spec_size().width as nat) < BAR_HEIGHT && column(
                i,
                before.spec_size().width as nat,
            ) < b.spec_size().width ==> #[trigger] after.pixels()[i] == click_color().opaque_pixel(),
{
    let c = b.after_event(Some(Event::Click));
    assert forall|i: int|
        0 <= i < before.area() && row(i, before.spec_size().width as nat) < BAR_HEIGHT && column(
            i,
            before.spec_size().width as nat,
        ) < b.spec_size().width implies #[trigger] after.pixels()[i] == click_color().opaque_pixel() by {
        assert(after.pixels()[i] == c.painted_pixel(i, before.spec_size().width as nat));
    }
}

} // verus!
