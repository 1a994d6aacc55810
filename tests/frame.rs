use konn_render::canvas::Canvas;
use konn_render::context::{hit_test, Context};
use konn_render::geometry::{Color, Pos, Quad, Rect, Size, WindowExtent};
use konn_render::renderer::{RegistryError, Renderer};
use konn_render::shell::HeaderMsg;
use konn_render::widgets::{Button, Event, Widget, WidgetId};

const WHITE: (u8, u8, u8, u8) = (255, 255, 255, 255);
const RED: (u8, u8, u8, u8) = (255, 0, 0, 255);
const GREEN: (u8, u8, u8, u8) = (0, 255, 0, 255);
const BLUE: (u8, u8, u8, u8) = (0, 0, 255, 255);

fn button_context() -> Context<Button> {
    let mut ctx = Context::new(WindowExtent::new(800, 600));
    let added = ctx.add_widget(
        WidgetId("button"),
        Button::new(Pos { x: 25, y: 25 }, Size { width: 50, height: 50 }),
    );
    assert_eq!(added, Ok(()));
    ctx
}

fn button_state(ctx: &Context<Button>) -> (bool, bool) {
    let b = ctx.widget(&WidgetId("button")).expect("registered");
    (b.is_hovered(), b.is_clicked())
}

#[test]
fn execute_dispatches_hover_click_and_none() {
    let mut ctx = button_context();
    ctx.execute(Pos { x: 30, y: 30 }, false);
    assert_eq!(button_state(&ctx), (true, false));
    ctx.execute(Pos { x: 30, y: 30 }, true);
    assert_eq!(button_state(&ctx), (true, true));
    ctx.execute(Pos { x: 1000, y: 1000 }, false);
    assert_eq!(button_state(&ctx), (false, false));
}

#[test]
fn execute_draws_and_submits_each_widget() {
    let mut ctx = button_context();
    ctx.execute(Pos { x: 1000, y: 1000 }, false);
    let canvas = ctx.renderer().get_canvas(&WidgetId("button")).expect("canvas");
    assert_eq!(canvas.surface_pixel(10, 10), Some(BLUE));
    assert_eq!(canvas.surface_pixel(10, 30), Some(WHITE));
    ctx.execute(Pos { x: 30, y: 30 }, false);
    let canvas = ctx.renderer().get_canvas(&WidgetId("button")).expect("canvas");
    assert_eq!(canvas.surface_pixel(49, 24), Some(GREEN));
    assert_eq!(canvas.surface_pixel(49, 25), Some(WHITE));
}

#[test]
fn update_widget_returns_its_id() {
    let mut ctx = button_context();
    let id = ctx.update_widget(0, Pos { x: 75, y: 75 }, true);
    assert_eq!(id, WidgetId("button"));
    assert_eq!(button_state(&ctx), (false, true));
}

#[test]
fn duplicate_widget_is_refused_and_first_kept() {
    let mut ctx = button_context();
    let again = ctx.add_widget(
        WidgetId("button"),
        Button::new(Pos { x: 0, y: 0 }, Size { width: 10, height: 10 }),
    );
    assert_eq!(again, Err(RegistryError::DuplicateId));
    assert_eq!(ctx.len(), 1);
    let kept = ctx.widget(&WidgetId("button")).expect("registered");
    assert_eq!(kept.position(), Pos { x: 25, y: 25 });
    let canvas = ctx.renderer().get_canvas(&WidgetId("button")).expect("canvas");
    assert_eq!(canvas.size(), Size { width: 50, height: 50 });
}

#[test]
fn distinct_widgets_each_get_a_canvas() {
    let mut ctx = button_context();
    let other = ctx.add_widget(
        WidgetId("other"),
        Button::new(Pos { x: 100, y: 100 }, Size { width: 20, height: 30 }),
    );
    assert_eq!(other, Ok(()));
    assert_eq!(ctx.len(), 2);
    assert_eq!(ctx.id_at(1), WidgetId("other"));
    let canvas = ctx.renderer().get_canvas(&WidgetId("other")).expect("canvas");
    assert_eq!(canvas.size(), Size { width: 20, height: 30 });
    assert!(ctx.renderer().get_canvas(&WidgetId("missing")).is_none());
}

#[test]
fn duplicate_canvas_keeps_first_buffer() {
    let mut renderer = Renderer::new(WindowExtent::new(800, 600));
    let id = WidgetId("panel");
    assert_eq!(renderer.add_canvas(id, Size { width: 40, height: 40 }), Ok(()));
    let button = Button::new(Pos { x: 0, y: 0 }, Size { width: 40, height: 40 });
    renderer.draw_at(0, &button);
    let again = renderer.add_canvas(id, Size { width: 10, height: 10 });
    assert_eq!(again, Err(RegistryError::DuplicateId));
    let canvas = renderer.get_canvas(&id).expect("canvas");
    assert_eq!(canvas.size(), Size { width: 40, height: 40 });
    assert_eq!(canvas.pixel(5, 5), Some(BLUE));
    assert_eq!(canvas.pixel(5, 30), Some(WHITE));
}

#[test]
fn no_event_resets_hover_and_click() {
    let mut b = Button::new(Pos { x: 0, y: 0 }, Size { width: 10, height: 10 });
    b.event(Some(Event::Hover));
    b.event(Some(Event::Click));
    b.event(Some(Event::Hover));
    assert!(b.is_hovered() && b.is_clicked());
    b.event(None);
    assert!(!b.is_hovered());
    assert!(!b.is_clicked());
    b.event(None);
    assert!(!b.is_hovered() && !b.is_clicked());
}

#[test]
fn click_paints_click_color_over_hover() {
    let size = Size { width: 30, height: 40 };
    let mut b = Button::new(Pos { x: 0, y: 0 }, size);
    b.event(Some(Event::Hover));
    b.event(Some(Event::Click));
    assert!(b.is_clicked());
    let mut canvas = Canvas::new(size, Quad { width: 30, height: 40, scale: 600 });
    b.draw(&mut canvas);
    assert_eq!(canvas.surface_pixel(0, 0), Some(RED));
    assert_eq!(canvas.surface_pixel(29, 24), Some(RED));
    assert_eq!(canvas.surface_pixel(29, 25), Some(WHITE));
    assert_eq!(canvas.pixel(0, 39), Some(WHITE));
}

#[test]
fn idle_and_hover_colors() {
    let size = Size { width: 8, height: 30 };
    let mut b = Button::new(Pos { x: 0, y: 0 }, size);
    let mut canvas = Canvas::new(size, Quad::fit(size, WindowExtent::new(800, 600)));
    b.draw(&mut canvas);
    assert_eq!(canvas.pixel(3, 3), Some(BLUE));
    b.event(Some(Event::Hover));
    b.draw(&mut canvas);
    assert_eq!(canvas.pixel(3, 3), Some(GREEN));
}

#[test]
fn resize_changes_extent_but_not_quads() {
    let mut ctx = button_context();
    let before = ctx.renderer().get_canvas(&WidgetId("button")).expect("canvas").quad();
    assert_eq!(before, Quad { width: 50, height: 50, scale: 600 });
    let extent = WindowExtent { x: 10, y: 20, width: 1024, height: 768 };
    ctx.resize(extent);
    assert_eq!(ctx.window_extent(), extent);
    let after = ctx.renderer().get_canvas(&WidgetId("button")).expect("canvas").quad();
    assert_eq!(after, before);
}

#[test]
fn new_canvas_after_resize_uses_new_height() {
    let mut renderer = Renderer::new(WindowExtent::new(800, 600));
    renderer.resize(WindowExtent::new(1000, 500));
    assert_eq!(renderer.get_extent(), WindowExtent::new(1000, 500));
    assert_eq!(renderer.add_canvas(WidgetId("a"), Size { width: 100, height: 20 }), Ok(()));
    let quad = renderer.get_canvas(&WidgetId("a")).expect("canvas").quad();
    assert_eq!(quad, Quad { width: 100, height: 20, scale: 500 });
}

#[test]
fn clear_rect_submit_samples() {
    let size = Size { width: 100, height: 50 };
    let mut canvas = Canvas::new(size, Quad::fit(size, WindowExtent::new(800, 600)));
    assert_eq!(canvas.surface_pixel(0, 0), None);
    assert_eq!(canvas.pixel(0, 0), Some((0, 0, 0, 0)));
    canvas.clear(Color::from_rgba8(255, 255, 255, 255));
    canvas.rect(Rect::from_xywh(10, 10, 20, 20), Color::from_rgba8(255, 0, 0, 255));
    canvas.submit();
    assert_eq!(canvas.surface_pixel(15, 15), Some(RED));
    assert_eq!(canvas.surface_pixel(10, 10), Some(RED));
    assert_eq!(canvas.surface_pixel(29, 29), Some(RED));
    assert_eq!(canvas.surface_pixel(30, 15), Some(WHITE));
    assert_eq!(canvas.surface_pixel(5, 5), Some(WHITE));
    assert_eq!(canvas.surface_pixel(100, 0), None);
    assert_eq!(canvas.surface_pixel(0, 50), None);
}

#[test]
fn rect_outside_canvas_is_clipped() {
    let size = Size { width: 20, height: 20 };
    let mut canvas = Canvas::new(size, Quad::fit(size, WindowExtent::new(800, 600)));
    canvas.clear(Color::from_rgba8(0, 0, 255, 255));
    canvas.rect(Rect::from_xywh(15, 15, 100, 100), Color::from_rgba8(0, 255, 0, 255));
    assert_eq!(canvas.pixel(19, 19), Some(GREEN));
    assert_eq!(canvas.pixel(14, 19), Some(BLUE));
    canvas.rect(Rect::from_xywh(50, 50, 10, 10), Color::from_rgba8(255, 0, 0, 255));
    canvas.rect(Rect::from_xywh(3, 3, 0, 10), Color::from_rgba8(255, 0, 0, 255));
    assert_eq!(canvas.pixel(3, 3), Some(BLUE));
    assert_eq!(canvas.pixel(19, 19), Some(GREEN));
}

#[test]
fn clear_premultiplies_translucent_color() {
    let size = Size { width: 4, height: 4 };
    let mut canvas = Canvas::new(size, Quad::fit(size, WindowExtent::new(800, 600)));
    canvas.clear(Color::from_rgba8(255, 0, 0, 128));
    assert_eq!(canvas.pixel(2, 2), Some((128, 0, 0, 128)));
    canvas.clear(Color::from_rgba8(10, 20, 30, 0));
    assert_eq!(canvas.pixel(2, 2), Some((0, 0, 0, 0)));
}

#[test]
fn resize_discards_pixels_and_refits_quad() {
    let size = Size { width: 4, height: 4 };
    let mut canvas = Canvas::new(size, Quad::fit(size, WindowExtent::new(800, 600)));
    canvas.clear(Color::from_rgba8(1, 2, 3, 255));
    canvas.submit();
    canvas.resize(Size { width: 8, height: 2 });
    assert_eq!(canvas.size(), Size { width: 8, height: 2 });
    assert_eq!(canvas.quad(), Quad { width: 8, height: 2, scale: 600 });
    assert_eq!(canvas.pixel(7, 1), Some((0, 0, 0, 0)));
    assert_eq!(canvas.pixel(0, 2), None);
    assert_eq!(canvas.surface_pixel(3, 3), Some((1, 2, 3, 255)));
    assert!(canvas.surface().is_some());
}

#[test]
fn hit_test_bounds_are_inclusive() {
    let pos = Pos { x: 25, y: 25 };
    let size = Size { width: 50, height: 50 };
    assert_eq!(hit_test(pos, size, Pos { x: 25, y: 25 }, false), Some(Event::Hover));
    assert_eq!(hit_test(pos, size, Pos { x: 75, y: 75 }, true), Some(Event::Click));
    assert_eq!(hit_test(pos, size, Pos { x: 76, y: 30 }, false), None);
    assert_eq!(hit_test(pos, size, Pos { x: 30, y: 24 }, true), None);
    let far = Pos { x: 100, y: 100 };
    let small = Size { width: 20, height: 20 };
    assert_eq!(hit_test(far, small, Pos { x: 110, y: 120 }, false), Some(Event::Hover));
    let edge = Pos { x: u32::MAX, y: u32::MAX };
    assert_eq!(hit_test(edge, small, edge, true), Some(Event::Click));
}

#[test]
fn quad_is_normalised_by_viewport_height() {
    let q = Quad::fit(Size { width: 200, height: 100 }, WindowExtent { x: 5, y: 5, width: 800, height: 400 });
    assert_eq!(q, Quad { width: 200, height: 100, scale: 400 });
}

#[test]
fn widget_ids_compare_by_text() {
    assert_eq!(WidgetId("a"), WidgetId("a"));
    assert_ne!(WidgetId("a"), WidgetId("ab"));
    assert!(WidgetId("ok").same(&WidgetId("ok")));
    assert!(!WidgetId("ok").same(&WidgetId("no")));
    assert_eq!(WidgetId("name").name(), "name");
}

#[test]
fn header_labels() {
    assert_eq!(HeaderMsg::Add.label(), "Add");
    assert_eq!(HeaderMsg::Remove.label(), "Remove");
}

#[test]
fn single_pixel_and_thin_rects() {
    let size = Size { width: 6, height: 6 };
    let mut canvas = Canvas::new(size, Quad::fit(size, WindowExtent::new(800, 600)));
    canvas.clear(Color::from_rgba8(255, 255, 255, 255));
    canvas.rect(Rect::from_xywh(2, 3, 1, 1), Color::from_rgba8(255, 0, 0, 255));
    assert_eq!(canvas.pixel(2, 3), Some(RED));
    assert_eq!(canvas.pixel(1, 3), Some(WHITE));
    assert_eq!(canvas.pixel(3, 3), Some(WHITE));
    assert_eq!(canvas.pixel(2, 2), Some(WHITE));
    assert_eq!(canvas.pixel(2, 4), Some(WHITE));
    canvas.rect(Rect::from_xywh(5, 0, 1, 6), Color::from_rgba8(0, 0, 255, 255));
    assert_eq!(canvas.pixel(5, 0), Some(BLUE));
    assert_eq!(canvas.pixel(5, 5), Some(BLUE));
    assert_eq!(canvas.pixel(4, 5), Some(WHITE));
    canvas.rect(Rect::from_xywh(0, 5, 6, 1), Color::from_rgba8(0, 255, 0, 255));
    assert_eq!(canvas.pixel(0, 5), Some(GREEN));
    assert_eq!(canvas.pixel(5, 5), Some(GREEN));
    assert_eq!(canvas.pixel(0, 4), Some(WHITE));
}

#[test]
fn translucent_rect_blends_over_existing_pixels() {
    let size = Size { width: 4, height: 4 };
    let mut canvas = Canvas::new(size, Quad::fit(size, WindowExtent::new(800, 600)));
    canvas.clear(Color::from_rgba8(255, 255, 255, 255));
    canvas.rect(Rect::from_xywh(1, 1, 2, 2), Color::from_rgba8(255, 0, 0, 128));
    assert_eq!(canvas.pixel(1, 1), Some((255, 127, 127, 255)));
    assert_eq!(canvas.pixel(0, 0), Some(WHITE));
    assert_eq!(canvas.pixel(3, 3), Some(WHITE));
}

#[test]
fn large_canvas_is_filled_exactly() {
    let size = Size { width: 9000, height: 30 };
    let mut b = Button::new(Pos { x: 0, y: 0 }, size);
    b.event(Some(Event::Click));
    let mut canvas = Canvas::new(size, Quad::fit(size, WindowExtent::new(800, 600)));
    b.draw(&mut canvas);
    assert_eq!(canvas.surface_pixel(0, 0), Some(RED));
    assert_eq!(canvas.surface_pixel(8999, 24), Some(RED));
    assert_eq!(canvas.surface_pixel(8999, 25), Some(WHITE));
    assert_eq!(canvas.surface_pixel(4500, 29), Some(WHITE));
}

#[test]
fn translucent_rect_blends_alike_on_a_large_canvas() {
    let size = Size { width: 4, height: 9000 };
    let mut canvas = Canvas::new(size, Quad::fit(size, WindowExtent::new(800, 600)));
    canvas.clear(Color::from_rgba8(255, 255, 255, 255));
    canvas.rect(Rect::from_xywh(1, 8990, 2, 2), Color::from_rgba8(255, 0, 0, 128));
    assert_eq!(canvas.pixel(1, 8990), Some((255, 127, 127, 255)));
    assert_eq!(canvas.pixel(2, 8991), Some((255, 127, 127, 255)));
    assert_eq!(canvas.pixel(0, 8990), Some(WHITE));
    assert_eq!(canvas.pixel(1, 8992), Some(WHITE));
}
