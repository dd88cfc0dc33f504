//! Scenario tests driving the selector through full gestures.

use rnote_selector::engine::{Camera, Document, EngineView, SelectorConfig, SelectorStyle};
use rnote_selector::geom::{Aabb, Frac, Vector2};
use rnote_selector::options::SmoothOptions;
use rnote_selector::penevent::{Element, KeyboardKey, ModifierKey, PenProgress};
use rnote_selector::selector::{Selector, SelectorState};
use rnote_selector::shape::{Line, Rectangle, Shape};
use rnote_selector::store::StrokeStore;

fn v(x: i64, y: i64) -> Vector2 {
    Vector2 { x, y }
}

fn boxed(x0: i64, y0: i64, x1: i64, y1: i64) -> Aabb {
    Aabb { mins: v(x0, y0), maxs: v(x1, y1) }
}

fn engine(style: SelectorStyle) -> EngineView {
    EngineView {
        store: StrokeStore::new(),
        camera: Camera { viewport: boxed(-500, -500, 500, 500), zoom: Frac { num: 1, den: 1 } },
        document: Document { bounds: boxed(-500, -500, 500, 500), snap_grid: 1 },
        selector_config: SelectorConfig { style, resize_lock_aspectratio: false },
    }
}

fn rect_stroke(x0: i64, y0: i64, x1: i64, y1: i64) -> Shape {
    Shape::Rectangle(Rectangle { bounds: boxed(x0, y0, x1, y1) })
}

#[test]
fn idle_down_then_rectangle_up_selects_containing_stroke() {
    let mut engine_view = engine(SelectorStyle::Rectangle);
    let key = engine_view.store.insert_stroke(rect_stroke(6, 6, 12, 12), SmoothOptions::default());
    let mut selector = Selector::new();
    let (r1, _) = selector.handle_pen_event_down(Element::new(v(5, 5)), Vec::new(), 0, &mut engine_view);
    assert!(r1.handled);
    assert_eq!(r1.progress, PenProgress::InProgress);
    match &selector.state {
        SelectorState::Selecting { path } => {
            assert_eq!(path.len(), 1);
            assert_eq!(path[0].pos, v(5, 5));
        }
        _ => panic!("expected a selection path"),
    }
    let (r2, _) = selector.handle_pen_event_down(Element::new(v(15, 15)), Vec::new(), 0, &mut engine_view);
    assert!(r2.handled);
    let (r3, flags) = selector.handle_pen_event_up(Element::new(v(15, 15)), Vec::new(), 0, &mut engine_view);
    assert!(r3.handled);
    assert_eq!(r3.progress, PenProgress::InProgress);
    assert!(flags.store_modified);
    match &selector.state {
        SelectorState::ModifySelection { selection, selection_bounds, .. } => {
            assert_eq!(selection.as_slice(), &[key]);
            assert_eq!(*selection_bounds, boxed(6, 6, 12, 12));
        }
        _ => panic!("expected a selection"),
    }
    assert_eq!(engine_view.store.selected(key), Some(true));
}

#[test]
fn rectangle_selects_exactly_contained_hitboxes() {
    let mut engine_view = engine(SelectorStyle::Rectangle);
    let inside = engine_view.store.insert_stroke(rect_stroke(2, 2, 8, 8), SmoothOptions::default());
    let outside = engine_view.store.insert_stroke(rect_stroke(5, 5, 20, 20), SmoothOptions::default());
    let mut selector = Selector::new();
    selector.handle_pen_event_down(Element::new(v(0, 0)), Vec::new(), 0, &mut engine_view);
    selector.handle_pen_event_down(Element::new(v(10, 10)), Vec::new(), 0, &mut engine_view);
    selector.handle_pen_event_up(Element::new(v(10, 10)), Vec::new(), 0, &mut engine_view);
    assert_eq!(engine_view.store.selected(inside), Some(true));
    assert_eq!(engine_view.store.selected(outside), Some(false));
}

#[test]
fn short_polygon_path_selects_nothing() {
    let mut engine_view = engine(SelectorStyle::Polygon);
    let key = engine_view.store.insert_stroke(rect_stroke(2, 2, 4, 4), SmoothOptions::default());
    let mut selector = Selector::new();
    selector.handle_pen_event_down(Element::new(v(0, 0)), Vec::new(), 0, &mut engine_view);
    selector.handle_pen_event_down(Element::new(v(10, 10)), Vec::new(), 0, &mut engine_view);
    let (r, flags) = selector.handle_pen_event_up(Element::new(v(10, 10)), Vec::new(), 0, &mut engine_view);
    assert_eq!(r.progress, PenProgress::Finished);
    assert!(!flags.store_modified);
    assert_eq!(engine_view.store.selected(key), Some(false));
    assert!(matches!(selector.state, SelectorState::Selecting { .. }));
}

#[test]
fn click_outside_selection_deselects_and_finishes() {
    let mut engine_view = engine(SelectorStyle::Rectangle);
    let key = engine_view.store.insert_stroke(rect_stroke(2, 2, 8, 8), SmoothOptions::default());
    let mut selector = Selector::new();
    selector.handle_pen_event_down(Element::new(v(0, 0)), Vec::new(), 0, &mut engine_view);
    selector.handle_pen_event_down(Element::new(v(10, 10)), Vec::new(), 0, &mut engine_view);
    selector.handle_pen_event_up(Element::new(v(10, 10)), Vec::new(), 0, &mut engine_view);
    // widen the stroke so the ghost-width commit on deselection is visible
    engine_view.store.strokes[key].options.stroke_width = 5_000;
    let (r, flags) = selector.handle_pen_event_down(Element::new(v(400, 400)), Vec::new(), 0, &mut engine_view);
    assert_eq!(r.progress, PenProgress::Finished);
    assert!(flags.store_modified);
    assert!(matches!(selector.state, SelectorState::Idle));
    assert_eq!(engine_view.store.selected(key), Some(false));
    assert_eq!(engine_view.store.strokes[key].options.stroke_width_ghost, 5_000);
}

#[test]
fn select_all_key_selects_everything_in_any_state() {
    let mut engine_view = engine(SelectorStyle::Rectangle);
    let k1 = engine_view.store.insert_stroke(rect_stroke(2, 2, 8, 8), SmoothOptions::default());
    let k2 = engine_view.store.insert_stroke(rect_stroke(50, 50, 60, 60), SmoothOptions::default());
    let mut selector = Selector::new();
    let (r, _) = selector.handle_pen_event_keypressed(
        KeyboardKey::Unicode('a'), Vec::new(), 0, &mut engine_view);
    assert!(r.handled);
    assert_eq!(engine_view.store.selected(k1), Some(true));
    assert_eq!(engine_view.store.selected(k2), Some(true));
    assert!(matches!(selector.state, SelectorState::ModifySelection { .. }));
}

#[test]
fn escape_cancels_without_trashing_and_delete_trashes_selection() {
    let mut engine_view = engine(SelectorStyle::Rectangle);
    let key = engine_view.store.insert_stroke(rect_stroke(2, 2, 8, 8), SmoothOptions::default());
    let mut selector = Selector::new();
    selector.handle_pen_event_keypressed(KeyboardKey::Unicode('a'), Vec::new(), 0, &mut engine_view);
    let (r, _) = selector.handle_pen_event_keypressed(KeyboardKey::Escape, Vec::new(), 0, &mut engine_view);
    assert_eq!(r.progress, PenProgress::Finished);
    assert!(matches!(selector.state, SelectorState::Idle));
    assert!(!engine_view.store.strokes[key].trashed);
    assert_eq!(engine_view.store.selected(key), Some(false));

    selector.handle_pen_event_keypressed(KeyboardKey::Unicode('a'), Vec::new(), 0, &mut engine_view);
    let (r2, _) = selector.handle_pen_event_keypressed(KeyboardKey::Delete, Vec::new(), 0, &mut engine_view);
    assert_eq!(r2.progress, PenProgress::Finished);
    assert!(engine_view.store.strokes[key].trashed);
    assert!(matches!(selector.state, SelectorState::Idle));
}

#[test]
fn small_translate_offset_is_a_no_op() {
    let mut engine_view = engine(SelectorStyle::Rectangle);
    // zoom 1/2: the effective threshold is four units, so a one-unit drag is ignored
    engine_view.camera.zoom = Frac { num: 1, den: 2 };
    engine_view.store.insert_stroke(rect_stroke(2, 2, 200, 200), SmoothOptions::default());
    let mut selector = Selector::new();
    selector.handle_pen_event_keypressed(KeyboardKey::Unicode('a'), Vec::new(), 0, &mut engine_view);
    // press well inside the bounds (away from the handles) to start a translation
    selector.handle_pen_event_down(Element::new(v(100, 100)), Vec::new(), 0, &mut engine_view);
    let before = engine_view.store.strokes[0].shape.bounds();
    selector.handle_pen_event_down(Element::new(v(101, 100)), Vec::new(), 0, &mut engine_view);
    let after = engine_view.store.strokes[0].shape.bounds();
    assert_eq!(before, after);
    // a larger drag does move the strokes
    selector.handle_pen_event_down(Element::new(v(140, 100)), Vec::new(), 0, &mut engine_view);
    let moved = engine_view.store.strokes[0].shape.bounds();
    assert_eq!(moved, boxed(42, 2, 240, 200));
}

#[test]
fn duplicate_key_is_consumed_even_without_control() {
    let mut engine_view = engine(SelectorStyle::Rectangle);
    engine_view.store.insert_stroke(rect_stroke(2, 2, 8, 8), SmoothOptions::default());
    let mut selector = Selector::new();
    selector.handle_pen_event_keypressed(KeyboardKey::Unicode('a'), Vec::new(), 0, &mut engine_view);
    let (r, _) = selector.handle_pen_event_keypressed(KeyboardKey::Unicode('d'), Vec::new(), 0, &mut engine_view);
    assert!(r.handled);
    assert_eq!(r.progress, PenProgress::Finished);
    assert_eq!(engine_view.store.strokes.len(), 1);
    let (r2, flags) = selector.handle_pen_event_keypressed(
        KeyboardKey::Unicode('d'), vec![ModifierKey::KeyboardCtrl], 0, &mut engine_view);
    assert!(r2.handled);
    assert!(flags.store_modified && flags.resize);
    assert_eq!(engine_view.store.strokes.len(), 2);
}

#[test]
fn unhandled_keys_pass_through_without_any_effect() {
    let mut engine_view = engine(SelectorStyle::Rectangle);
    engine_view.store.insert_stroke(rect_stroke(2, 2, 8, 8), SmoothOptions::default());
    let mut selector = Selector::new();
    selector.handle_pen_event_down(Element::new(v(0, 0)), Vec::new(), 0, &mut engine_view);
    let (r, flags) = selector.handle_pen_event_keypressed(
        KeyboardKey::Unicode('q'), Vec::new(), 0, &mut engine_view);
    assert!(!r.handled);
    assert!(!flags.store_modified && !flags.resize && !flags.redraw);
    match &selector.state {
        SelectorState::Selecting { path } => assert_eq!(path.len(), 1),
        _ => panic!("the selection path must survive an unhandled key"),
    }
}

#[test]
fn text_input_is_never_handled_and_cancel_returns_to_idle() {
    let mut engine_view = engine(SelectorStyle::Rectangle);
    engine_view.store.insert_stroke(rect_stroke(2, 2, 8, 8), SmoothOptions::default());
    let mut selector = Selector::new();
    let (rt, _) = selector.handle_pen_event_text(String::from("x"), 0, &mut engine_view);
    assert!(!rt.handled);
    selector.handle_pen_event_keypressed(KeyboardKey::Unicode('a'), Vec::new(), 0, &mut engine_view);
    let (rc, _) = selector.handle_pen_event_cancel(0, &mut engine_view);
    assert!(rc.handled);
    assert_eq!(rc.progress, PenProgress::Finished);
    assert!(matches!(selector.state, SelectorState::Idle));
    assert!(!engine_view.store.strokes[0].trashed);
}
