use dui_core::drawing::{DrawingContext, LayoutContext, LayoutPathPusher, PathPusher};
use dui_core::geometry::{Rect, ScaleFactor};
use dui_core::layout::Id;
use dui_core::simple_text::{Font, FontManager};
use vello::peniko::{Brush, Color};

fn fonts() -> FontManager {
    FontManager::new(Font::new(1000, 800, -200, 0, Vec::new(), Vec::new()).unwrap())
}

fn black() -> Brush {
    Brush::Solid(Color::rgb8(0, 0, 0))
}

#[test]
fn layout_guard_round_trip() {
    let fonts = fonts();
    let mut lctx = LayoutContext::new(&fonts, vec![0, 2], ScaleFactor::whole(1));
    let mut guard = lctx.push();
    assert_eq!(*guard.0, vec![0, 2, 0]);
    guard.set_last(7);
    assert_eq!(*guard.0, vec![0, 2, 7]);
    guard.release();
    assert_eq!(lctx.path, vec![0, 2]);
}

#[test]
fn layout_guard_new_wraps_the_last_segment() {
    let fonts = fonts();
    let mut lctx = LayoutContext::new(&fonts, vec![0, 2], ScaleFactor::whole(1));
    let mut guard = LayoutPathPusher::new(&mut lctx);
    guard.set_last(5);
    guard.release();
    assert_eq!(lctx.path, vec![0]);
}

#[test]
fn nested_guards_released_in_reverse_restore_the_path() {
    let fonts = fonts();
    let mut lctx = LayoutContext::new(&fonts, vec![0], ScaleFactor::whole(1));
    let mut outer = lctx.push();
    outer.set_last(1);
    outer.0.push(0);
    let mut inner = LayoutPathPusher(&mut *outer.0);
    inner.set_last(4);
    assert_eq!(*inner.0, vec![0, 1, 4]);
    inner.release();
    assert_eq!(*outer.0, vec![0, 1]);
    outer.release();
    assert_eq!(lctx.path, vec![0]);
}

#[test]
fn draw_guard_round_trip() {
    let fonts = fonts();
    let mut dctx = DrawingContext::new(
        &fonts,
        vec![0],
        black(),
        black(),
        black(),
        Rect::new(0, 0, 10, 10),
        ScaleFactor::whole(1),
    );
    let mut guard = dctx.push();
    guard.set_last(3);
    assert_eq!(*guard.0, vec![0, 3]);
    guard.release();
    assert_eq!(dctx.path, vec![0]);
    let mut guard = PathPusher::new(&mut dctx);
    guard.set_last(9);
    assert_eq!(*guard.0, vec![9]);
    guard.release();
    assert!(dctx.path.is_empty());
}

#[test]
fn id_is_a_snapshot_of_the_path() {
    let fonts = fonts();
    let mut lctx = LayoutContext::new(&fonts, vec![0, 1], ScaleFactor::whole(1));
    let before = lctx.id();
    lctx.path.push(5);
    assert_eq!(before, Id::from(vec![0, 1]));
    assert_eq!(lctx.id(), Id::from(vec![0, 1, 5]));
    lctx.enter();
    assert_eq!(lctx.visited, vec![Id::from(vec![0, 1, 5])]);
}
