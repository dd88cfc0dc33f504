//! The selector's event handlers: pointer down, pointer up, proximity,
//! key presses, text input and cancel. Each handler states exactly how it
//! moves the state machine and what it commands the collaborators to do.

use vstd::prelude::*;
use crate::engine::{snap_pt_spec, Document, EngineView, SelectorStyle};
use crate::geom::{
    offset_exceeds_threshold_spec, rotation_exceeds_threshold_spec, clamp_spec, dir_spec, Aabb,
    Frac, Scale2, Vector2, clamp_coord, dir_between, offset_exceeds_threshold,
    rotation_exceeds_threshold,
};
use crate::penevent::{
    contains_modifier, Element, EventPropagation, EventResult, KeyboardKey, ModifierKey,
    PenProgress, WidgetFlags,
};
use crate::selector::{
    add_to_select_path, bounds_on_doc_spec, cancel_selection, determine_snap_corner_spec,
    resize_corner_pos, resize_node_contains, resize_node_contains_spec, resize_pivot_pos,
    rotate_node_contains, rotate_node_contains_spec, snap_corner_pos, ModifyState, ResizeCorner,
    Selector, SelectorState, SnapCorner,
};
use crate::store::StrokeKey;
use crate::TRANSLATE_OFFSET_THRESHOLD;

verus! {

/// The result every handled gesture event returns.
pub open spec fn handled_result(progress: PenProgress) -> EventResult {
    EventResult { handled: true, propagate: EventPropagation::Stop, progress }
}

/// The result every ignored event returns.
pub open spec fn ignored_result(progress: PenProgress) -> EventResult {
    EventResult { handled: false, propagate: EventPropagation::Proceed, progress }
}

/// The translation offset a pointer sample asks for: the tracked snap corner
/// moved by the pointer delta, snapped to the grid, relative to the corner.
pub open spec fn translate_eff_offset(
    doc: Document,
    bounds: Aabb,
    current_pos: Vector2,
    sc: SnapCorner,
    pos: Vector2,
) -> Vector2 {
    let anchor = snap_corner_pos(sc, bounds);
    let moved = anchor.plus_spec(pos.minus_spec(current_pos));
    snap_pt_spec(moved, doc.snap_grid as int).minus_spec(anchor)
}

/// A resize target extent: the start extent plus the mirrored offset,
/// floored at one unit and capped at the canvas span.
pub open spec fn resize_target_extent(e: int, o: int) -> i64 {
    clamp_spec(e + o, 1, 4_000_000) as i64
}

/// The selection bounds after a resize event: the box anchored at the pivot
/// that keeps the pivot fixed and spans the target extents toward the
/// dragged corner, clamped into the canvas. Because the pivot stays a corner
/// of the live bounds throughout a gesture, this equals scaling the live
/// bounds about the pivot by `target / current` per axis.
pub open spec fn resize_target_bounds(corner: ResizeCorner, pivot: Vector2, tx: i64, ty: i64)
    -> Aabb {
    match corner {
        ResizeCorner::BottomRight => Aabb {
            mins: pivot,
            maxs: Vector2 {
                x: crate::geom::clamp_coord_spec(pivot.x as int + tx as int),
                y: crate::geom::clamp_coord_spec(pivot.y as int + ty as int),
            },
        },
        ResizeCorner::TopLeft => Aabb {
            mins: Vector2 {
                x: crate::geom::clamp_coord_spec(pivot.x as int - tx as int),
                y: crate::geom::clamp_coord_spec(pivot.y as int - ty as int),
            },
            maxs: pivot,
        },
        ResizeCorner::TopRight => Aabb {
            mins: Vector2 {
                x: pivot.x,
                y: crate::geom::clamp_coord_spec(pivot.y as int - ty as int),
            },
            maxs: Vector2 {
                x: crate::geom::clamp_coord_spec(pivot.x as int + tx as int),
                y: pivot.y,
            },
        },
        ResizeCorner::BottomLeft => Aabb {
            mins: Vector2 {
                x: crate::geom::clamp_coord_spec(pivot.x as int - tx as int),
                y: pivot.y,
            },
            maxs: Vector2 {
                x: pivot.x,
                y: crate::geom::clamp_coord_spec(pivot.y as int + ty as int),
            },
        },
    }
}

/// Mirrors a raw resize offset so that dragging outward is positive on both
/// axes, whatever corner is dragged.
pub open spec fn mirror_offset(corner: ResizeCorner, o: Vector2) -> Vector2 {
    match corner {
        ResizeCorner::TopLeft => Vector2 { x: (-o.x) as i64, y: (-o.y) as i64 },
        ResizeCorner::TopRight => Vector2 { x: o.x, y: (-o.y) as i64 },
        ResizeCorner::BottomLeft => Vector2 { x: (-o.x) as i64, y: o.y },
        ResizeCorner::BottomRight => o,
    }
}

/// The state is a selection-modification state with exactly these parts.
pub open spec fn modify_sel_state(
    st: SelectorState,
    m: ModifyState,
    sel: Seq<StrokeKey>,
    b: Aabb,
) -> bool {
    st matches SelectorState::ModifySelection { modify_state, selection, selection_bounds }
        && modify_state == m && selection@ == sel && selection_bounds == b
}

/// The bounds carried by a selection-modification state (a zero box
/// otherwise; only used under a `modify_sel_state` clause).
pub open spec fn sel_state_bounds(st: SelectorState) -> Aabb {
    match st {
        SelectorState::ModifySelection { selection_bounds, .. } => selection_bounds,
        _ => Aabb { mins: Vector2 { x: 0, y: 0 }, maxs: Vector2 { x: 0, y: 0 } },
    }
}

/// The per-axis geometric scale of a resize event: target extents over the
/// live selection extents (a degenerate live extent counts as one unit).
pub open spec fn resize_scale_resize(cur: Aabb, tx: i64, ty: i64) -> Scale2 {
    Scale2 {
        x: Frac {
            num: tx,
            den: if cur.width() >= 1 {
                cur.width() as i64
            } else {
                1
            },
        },
        y: Frac {
            num: ty,
            den: if cur.height() >= 1 {
                cur.height() as i64
            } else {
                1
            },
        },
    }
}

/// The per-axis stroke-width scale of a resize event: target extents over
/// the size cached when the selection was made, so widths never compound
/// across repeated gestures.
pub open spec fn resize_scale_stroke(initial: Vector2, tx: i64, ty: i64) -> Scale2 {
    Scale2 {
        x: Frac {
            num: tx,
            den: if initial.x >= 1 {
                initial.x
            } else {
                1
            },
        },
        y: Frac {
            num: ty,
            den: if initial.y >= 1 {
                initial.y
            } else {
                1
            },
        },
    }
}

/// The whole effect of a pointer-down while a selection exists, relating the
/// state before the event (`pre`, with the destructured selection parts) to
/// the selector state and engine after it. This is the contract of both
/// `handle_pen_event_down`'s selection arm and `down_modify`.
pub open spec fn down_modify_spec(
    pre: EngineView,
    element: Element,
    mods: Seq<ModifierKey>,
    modify_state: ModifyState,
    sel: Seq<StrokeKey>,
    bounds: Aabb,
    post_state: SelectorState,
    post: EngineView,
    progress: PenProgress,
) -> bool {
    match modify_state {
        ModifyState::Translate { start_pos, current_pos, snap_corner } => {
            let eff = translate_eff_offset(pre.document, bounds, current_pos, snap_corner,
                element.pos);
            let applies = offset_exceeds_threshold_spec(
                eff,
                pre.camera.zoom,
                TRANSLATE_OFFSET_THRESHOLD,
            );
            &&& progress == PenProgress::InProgress
            &&& (!applies ==> modify_sel_state(post_state, modify_state, sel, bounds)
                && post.store.strokes@ == pre.store.strokes@)
            &&& (applies ==> modify_sel_state(
                post_state,
                ModifyState::Translate {
                    start_pos,
                    current_pos: current_pos.plus_spec(eff),
                    snap_corner,
                },
                sel,
                bounds.translate_spec(eff),
            ) && (forall|k: int|
                0 <= k < pre.store.n() && sel.contains(k as StrokeKey)
                    ==> crate::shape::Shape::transformed_by(
                    pre.store.strokes@[k].shape,
                    (#[trigger] post.store.strokes@[k]).shape,
                    |p: Vector2| p.plus_spec(eff),
                    |l: i64| l,
                ) && crate::store::stroke_fields_except_shape(
                    pre.store.strokes@[k],
                    post.store.strokes@[k],
                )) && (forall|k: int|
                0 <= k < pre.store.n() && !sel.contains(k as StrokeKey)
                    ==> #[trigger] post.store.strokes@[k] == pre.store.strokes@[k]))
        },
        ModifyState::Rotate { rotation_center, start_rotation_dir, current_rotation_dir } => {
            let new_dir = dir_spec(rotation_center, element.pos);
            let applies = rotation_exceeds_threshold_spec(current_rotation_dir, new_dir);
            let new_bounds = if sel.len() > 0 {
                post.store.merged_bounds(sel, sel.len() as int)
            } else {
                bounds
            };
            &&& progress == PenProgress::InProgress
            &&& (!applies ==> modify_sel_state(post_state, modify_state, sel, bounds)
                && post.store.strokes@ == pre.store.strokes@)
            &&& (applies ==> modify_sel_state(
                post_state,
                ModifyState::Rotate {
                    rotation_center,
                    start_rotation_dir,
                    current_rotation_dir: new_dir,
                },
                sel,
                new_bounds,
            ) && (forall|k: int|
                0 <= k < pre.store.n() && sel.contains(k as StrokeKey)
                    ==> crate::shape::Shape::transformed_by(
                    pre.store.strokes@[k].shape,
                    (#[trigger] post.store.strokes@[k]).shape,
                    |p: Vector2| crate::geom::rotate_pt_spec(
                        p,
                        rotation_center,
                        current_rotation_dir,
                        new_dir,
                    ),
                    |l: i64| l,
                ) && crate::store::stroke_fields_except_shape(
                    pre.store.strokes@[k],
                    post.store.strokes@[k],
                )) && (forall|k: int|
                0 <= k < pre.store.n() && !sel.contains(k as StrokeKey)
                    ==> #[trigger] post.store.strokes@[k] == pre.store.strokes@[k]))
        },
        ModifyState::Resize { from_corner, start_bounds, start_pos } => {
            let eff = resize_eff_offset(pre, mods, from_corner, start_bounds, start_pos,
                element.pos);
            let tx = resize_target_extent(start_bounds.width(), eff.x as int);
            let ty = resize_target_extent(start_bounds.height(), eff.y as int);
            let pivot = resize_pivot_pos(from_corner, start_bounds);
            let sr = resize_scale_resize(bounds, tx, ty);
            &&& progress == PenProgress::InProgress
            &&& (pre.store.initial_size_selection is None ==> modify_sel_state(
                post_state,
                modify_state,
                sel,
                bounds,
            ) && post.store.strokes@ == pre.store.strokes@)
            &&& (pre.store.initial_size_selection matches Some(isz) ==> modify_sel_state(
                post_state,
                modify_state,
                sel,
                resize_target_bounds(from_corner, pivot, tx, ty),
            ) && (forall|k: int|
                0 <= k < pre.store.n() && sel.contains(k as StrokeKey)
                    ==> crate::shape::Shape::transformed_by(
                    pre.store.strokes@[k].shape,
                    (#[trigger] post.store.strokes@[k]).shape,
                    |p: Vector2| crate::geom::scale_pt_spec(p, pivot, sr),
                    |l: i64| crate::geom::scale_len_spec(l, sr.x),
                ) && post.store.strokes@[k].options == (crate::options::SmoothOptions {
                    stroke_width: crate::store::scale_width_spec(
                        pre.store.strokes@[k].options.stroke_width_ghost,
                        resize_scale_stroke(isz, tx, ty).x,
                    ),
                    ..pre.store.strokes@[k].options
                }) && post.store.strokes@[k].selected == pre.store.strokes@[k].selected
                    && post.store.strokes@[k].trashed == pre.store.strokes@[k].trashed)
                && (forall|k: int|
                0 <= k < pre.store.n() && !sel.contains(k as StrokeKey)
                    ==> #[trigger] post.store.strokes@[k] == pre.store.strokes@[k]))
        },
        ModifyState::Up | ModifyState::Hover(_) => {
            let vp = pre.camera.viewport;
            let can_add = (pre.selector_config.style == SelectorStyle::Single || mods.contains(
                ModifierKey::KeyboardShift,
            )) && exists|k: int|
                is_topmost_hit(pre.store, vp, element.pos, k) && !pre.store.strokes@[k].selected;
            if can_add {
                &&& progress == PenProgress::InProgress
                &&& exists|k: int|
                    #![auto]
                    is_topmost_hit(pre.store, vp, element.pos, k)
                        && !pre.store.strokes@[k].selected && modify_sel_state(
                        post_state,
                        modify_state,
                        sel.push(k as StrokeKey),
                        post.store.merged_bounds(
                            sel.push(k as StrokeKey),
                            sel.push(k as StrokeKey).len() as int,
                        ),
                    ) && post.store.selected_rendered(k) && post.store.strokes@[k] == (if
                    sel.contains(k as StrokeKey) {
                        crate::store::Stroke {
                            selected: true,
                            ..crate::store::ghost_committed(pre.store.strokes@[k])
                        }
                    } else {
                        crate::store::Stroke { selected: true, ..pre.store.strokes@[k] }
                    }) && (forall|j: int|
                        0 <= j < pre.store.n() && sel.contains(j as StrokeKey) && j != k
                            ==> #[trigger] post.store.strokes@[j] == crate::store::ghost_committed(
                            pre.store.strokes@[j],
                        )) && (forall|j: int|
                        0 <= j < pre.store.n() && !sel.contains(j as StrokeKey) && j != k
                            ==> #[trigger] post.store.strokes@[j] == pre.store.strokes@[j])
            } else if rotate_node_contains_spec(bounds, pre.camera.zoom, element.pos) {
                &&& progress == PenProgress::InProgress
                &&& modify_sel_state(
                    post_state,
                    ModifyState::Rotate {
                        rotation_center: bounds.center_spec(),
                        start_rotation_dir: dir_spec(bounds.center_spec(), element.pos),
                        current_rotation_dir: dir_spec(bounds.center_spec(), element.pos),
                    },
                    sel,
                    bounds,
                )
                &&& post.store.strokes@ == pre.store.strokes@
            } else if exists|c: ResizeCorner|
                resize_node_contains_spec(
                    resize_corner_pos(c, bounds),
                    pre.camera.zoom,
                    element.pos,
                ) {
                &&& progress == PenProgress::InProgress
                &&& exists|c: ResizeCorner|
                    #![auto]
                    resize_node_contains_spec(
                        resize_corner_pos(c, bounds),
                        pre.camera.zoom,
                        element.pos,
                    ) && modify_sel_state(
                        post_state,
                        ModifyState::Resize {
                            from_corner: c,
                            start_bounds: bounds,
                            start_pos: element.pos,
                        },
                        sel,
                        bounds,
                    )
                &&& post.store.strokes@ == pre.store.strokes@
            } else if bounds.contains_pt(element.pos) {
                &&& progress == PenProgress::InProgress
                &&& modify_sel_state(
                    post_state,
                    ModifyState::Translate {
                        start_pos: element.pos,
                        current_pos: element.pos,
                        snap_corner: determine_snap_corner_spec(bounds, element.pos),
                    },
                    sel,
                    bounds,
                )
                &&& post.store.strokes@ == pre.store.strokes@
            } else {
                &&& progress == PenProgress::Finished
                &&& post_state is Idle
                &&& forall|k: int|
                    0 <= k < pre.store.n() && sel.contains(k as StrokeKey)
                        ==> #[trigger] post.store.strokes@[k] == (crate::store::Stroke {
                        selected: false,
                        ..crate::store::ghost_committed(pre.store.strokes@[k])
                    })
                &&& forall|k: int|
                    0 <= k < pre.store.n() && !sel.contains(k as StrokeKey)
                        ==> #[trigger] post.store.strokes@[k] == pre.store.strokes@[k]
            }
        },
    }
}

/// A key is the topmost (largest) one whose stroke is hit at the position.
pub open spec fn is_topmost_hit(
    store: crate::store::StrokeStore,
    viewport: Aabb,
    pos: Vector2,
    k: int,
) -> bool {
    store.hits_coord(viewport, pos, k) && forall|j: int|
        k < j < store.n() ==> !store.hits_coord(viewport, pos, j)
}

impl Selector {
    /// Handles a pointer-down sample.
    ///
    /// Idle: deselects everything and starts a new selection path with this
    /// sample. Selecting: extends the path, follows the pointer with the
    /// camera and grows the document. With a selection, dispatches on the
    /// modify sub-state: from up or hover it hit-tests (add-to-selection,
    /// rotate handle, the four resize handles, the bounds interior, or
    /// deselect-and-finish); a translate drag moves the selection only when
    /// the snapped offset beats the zoom-scaled threshold; a rotate drag
    /// turns it only when the angle delta beats the fixed threshold; a
    /// resize drag rescales it about the pivot opposite the dragged corner.
    pub fn handle_pen_event_down(
        &mut self,
        element: Element,
        modifier_keys: Vec<ModifierKey>,
        now: u64,
        engine_view: &mut EngineView,
    ) -> (r: (EventResult, WidgetFlags))
        requires
            old(self).wf(old(engine_view).store),
            old(engine_view).wf(),
            element.wf(),
        ensures
            final(self).wf(final(engine_view).store),
            final(engine_view).wf(),
            final(engine_view).selector_config == old(engine_view).selector_config,
            match old(self).state {
                SelectorState::Idle => {
                    &&& r.0 == handled_result(PenProgress::InProgress)
                    &&& final(self).state matches SelectorState::Selecting { path } && path@.len()
                        == 1 && path@[0] == element
                    &&& forall|k: int|
                        0 <= k < final(engine_view).store.n() ==> !(
                        #[trigger] final(engine_view).store.strokes@[k]).selected || old(engine_view).store.strokes@[k].trashed
                    &&& r.1.store_modified == exists|k: int|
                        old(engine_view).store.selected_rendered(k)
                },
                SelectorState::Selecting { path } => {
                    &&& r.0 == handled_result(PenProgress::InProgress)
                    &&& final(self).state matches SelectorState::Selecting { path: p2 } && (if old(engine_view).selector_config.style == SelectorStyle::Rectangle && path@.len() >= 2 {
                        p2@ == path@.update(path@.len() - 1, element)
                    } else {
                        p2@ == path@.push(element)
                    })
                    &&& final(engine_view).store.strokes@ == old(engine_view).store.strokes@
                },
                SelectorState::ModifySelection { modify_state, selection, selection_bounds } => {
                    &&& r.0.handled && r.0.propagate == EventPropagation::Stop
                    &&& r.1.store_modified
                    &&& down_modify_spec(
                        *old(engine_view),
                        element,
                        modifier_keys@,
                        modify_state,
                        selection@,
                        selection_bounds,
                        final(self).state,
                        *final(engine_view),
                        r.0.progress,
                    )
                },
            },
    {
        let mut widget_flags: WidgetFlags = WidgetFlags::none();
        let mut state: SelectorState = SelectorState::Idle;
        core::mem::swap(&mut state, &mut self.state);
        let event_result: EventResult = match state {
            SelectorState::Idle => {
                let selection_keys: Vec<StrokeKey> =
                    engine_view.store.selection_keys_as_rendered();
                if selection_keys.len() > 0 {
                    engine_view.store.set_selected_keys(&selection_keys, false);
                    widget_flags.store_modified = true;
                }
                proof {
                    if exists|k: int| old(engine_view).store.selected_rendered(k) {
                        let k = choose|k: int| old(engine_view).store.selected_rendered(k);
                        assert(selection_keys@.contains(k as StrokeKey));
                        assert(selection_keys@.len() > 0);
                    }
                    if selection_keys@.len() > 0 {
                        assert(old(engine_view).store.selected_rendered(
                            selection_keys@[0] as int));
                    }
                    assert forall|k: int|
                        0 <= k < engine_view.store.n() implies !(
                    engine_view.store.strokes@[k].selected) || old(engine_view).store.strokes@[k].trashed by {
                        if old(engine_view).store.selected_rendered(k) {
                            assert(selection_keys@.contains(k as StrokeKey));
                            assert(selection_keys@.len() > 0);
                            assert(!engine_view.store.strokes@[k].selected);
                        } else {
                            if selection_keys@.len() > 0 && selection_keys@.contains(
                                k as StrokeKey,
                            ) {
                                assert(!engine_view.store.strokes@[k].selected);
                            }
                        }
                    }
                }
                let mut path: Vec<Element> = Vec::new();
                path.push(element);
                self.state = SelectorState::Selecting { path };
                EventResult {
                    handled: true,
                    propagate: EventPropagation::Stop,
                    progress: PenProgress::InProgress,
                }
            },
            SelectorState::Selecting { mut path } => {
                add_to_select_path(engine_view.selector_config.style, &mut path, element);
                let f1: WidgetFlags = engine_view.camera.nudge_w_pos(
                    element.pos,
                    &engine_view.document,
                );
                widget_flags.merge(f1);
                let f2: WidgetFlags = engine_view.document.expand_autoexpand(&engine_view.camera);
                widget_flags.merge(f2);
                engine_view.store.regenerate_rendering_in_viewport_threaded(
                    engine_view.camera.viewport,
                );
                self.state = SelectorState::Selecting { path };
                EventResult {
                    handled: true,
                    propagate: EventPropagation::Stop,
                    progress: PenProgress::InProgress,
                }
            },
            SelectorState::ModifySelection { modify_state, mut selection, mut selection_bounds } => {
                let progress: PenProgress = self.down_modify(
                    element,
                    &modifier_keys,
                    modify_state,
                    &mut selection,
                    &mut selection_bounds,
                    &mut widget_flags,
                    engine_view,
                );
                let _ = now;
                widget_flags.store_modified = true;
                EventResult {
                    handled: true,
                    propagate: EventPropagation::Stop,
                    progress,
                }
            },
        };
        (event_result, widget_flags)
    }
}

fn snap_corner_pos_exec(sc: SnapCorner, b: &Aabb) -> (r: Vector2)
    requires
        b.wf(),
    ensures
        r == snap_corner_pos(sc, *b),
        r.wf(),
{
    match sc {
        SnapCorner::TopLeft => b.mins,
        SnapCorner::TopRight => Vector2 { x: b.maxs.x, y: b.mins.y },
        SnapCorner::BottomLeft => Vector2 { x: b.mins.x, y: b.maxs.y },
        SnapCorner::BottomRight => b.maxs,
    }
}

fn resize_corner_pos_exec(corner: ResizeCorner, b: &Aabb) -> (r: Vector2)
    requires
        b.wf(),
    ensures
        r == resize_corner_pos(corner, *b),
        r.wf(),
{
    match corner {
        ResizeCorner::TopLeft => b.mins,
        ResizeCorner::TopRight => Vector2 { x: b.maxs.x, y: b.mins.y },
        ResizeCorner::BottomLeft => Vector2 { x: b.mins.x, y: b.maxs.y },
        ResizeCorner::BottomRight => b.maxs,
    }
}

fn resize_pivot_pos_exec(corner: ResizeCorner, b: &Aabb) -> (r: Vector2)
    requires
        b.wf(),
    ensures
        r == resize_pivot_pos(corner, *b),
        r.wf(),
{
    match corner {
        ResizeCorner::TopLeft => b.maxs,
        ResizeCorner::TopRight => Vector2 { x: b.mins.x, y: b.maxs.y },
        ResizeCorner::BottomLeft => Vector2 { x: b.maxs.x, y: b.mins.y },
        ResizeCorner::BottomRight => b.mins,
    }
}

fn mirror_offset_exec(corner: ResizeCorner, o: Vector2) -> (r: Vector2)
    requires
        o.wf(),
    ensures
        r == mirror_offset(corner, o),
        r.wf(),
{
    match corner {
        ResizeCorner::TopLeft => Vector2 { x: -o.x, y: -o.y },
        ResizeCorner::TopRight => Vector2 { x: o.x, y: -o.y },
        ResizeCorner::BottomLeft => Vector2 { x: -o.x, y: o.y },
        ResizeCorner::BottomRight => o,
    }
}

fn aspect_locked_offset_exec(start_bounds: &Aabb, o: Vector2) -> (r: Vector2)
    requires
        start_bounds.wf(),
        o.wf(),
    ensures
        r == aspect_locked_offset(*start_bounds, o),
{
    let w: i64 = start_bounds.maxs.x - start_bounds.mins.x;
    let h: i64 = start_bounds.maxs.y - start_bounds.mins.y;
    let sm2: i64 = w + h;
    let om2: i64 = o.x + o.y;
    if sm2 <= 0 {
        Vector2 { x: 0, y: 0 }
    } else {
        proof {
            crate::geom::lemma_mul_bound(w as int, om2 as int, 2_000_000, 4_000_000);
            crate::geom::lemma_mul_bound(h as int, om2 as int, 2_000_000, 4_000_000);
            crate::geom::lemma_div_trunc_bound(w as int * om2 as int, sm2 as int);
            crate::geom::lemma_div_trunc_bound(h as int * om2 as int, sm2 as int);
        }
        let qx: i128 = crate::geom::div_trunc_i128(crate::geom::wide_mul(w, om2), sm2 as i128);
        let qy: i128 = crate::geom::div_trunc_i128(crate::geom::wide_mul(h, om2), sm2 as i128);
        Vector2 { x: qx as i64, y: qy as i64 }
    }
}

fn resize_target_extent_exec(e: i64, o: i64) -> (r: i64)
    requires
        0 <= e <= 2_000_000,
    ensures
        r == resize_target_extent(e as int, o as int),
        1 <= r <= 4_000_000,
{
    let t: i128 = e as i128 + o as i128;
    if t < 1 {
        1
    } else if t > 4_000_000 {
        4_000_000
    } else {
        t as i64
    }
}

fn resize_target_bounds_exec(corner: ResizeCorner, pivot: Vector2, tx: i64, ty: i64) -> (r: Aabb)
    requires
        pivot.wf(),
        1 <= tx <= 4_000_000,
        1 <= ty <= 4_000_000,
    ensures
        r == resize_target_bounds(corner, pivot, tx, ty),
        r.wf(),
{
    match corner {
        ResizeCorner::BottomRight => Aabb {
            mins: pivot,
            maxs: Vector2 {
                x: clamp_coord(pivot.x as i128 + tx as i128),
                y: clamp_coord(pivot.y as i128 + ty as i128),
            },
        },
        ResizeCorner::TopLeft => Aabb {
            mins: Vector2 {
                x: clamp_coord(pivot.x as i128 - tx as i128),
                y: clamp_coord(pivot.y as i128 - ty as i128),
            },
            maxs: pivot,
        },
        ResizeCorner::TopRight => Aabb {
            mins: Vector2 { x: pivot.x, y: clamp_coord(pivot.y as i128 - ty as i128) },
            maxs: Vector2 { x: clamp_coord(pivot.x as i128 + tx as i128), y: pivot.y },
        },
        ResizeCorner::BottomLeft => Aabb {
            mins: Vector2 { x: clamp_coord(pivot.x as i128 - tx as i128), y: pivot.y },
            maxs: Vector2 { x: pivot.x, y: clamp_coord(pivot.y as i128 + ty as i128) },
        },
    }
}

/// The effective resize offset of a pointer sample: the raw pointer delta,
/// snapped relative to the dragged corner unless the aspect ratio is locked,
/// mirrored outward, and under aspect lock replaced by the start extents
/// scaled by the mean offset over the mean extent.
pub open spec fn resize_eff_offset(
    engine: EngineView,
    mods: Seq<ModifierKey>,
    corner: ResizeCorner,
    start_bounds: Aabb,
    start_pos: Vector2,
    pos: Vector2,
) -> Vector2 {
    let lock = engine.selector_config.resize_lock_aspectratio || mods.contains(
        ModifierKey::KeyboardCtrl,
    );
    let raw = pos.minus_spec(start_pos);
    let anchor = resize_corner_pos(corner, start_bounds);
    let snapped = if !lock {
        snap_pt_spec(anchor.plus_spec(raw), engine.document.snap_grid as int).minus_spec(anchor)
    } else {
        raw
    };
    let mirrored = mirror_offset(corner, snapped);
    if lock {
        aspect_locked_offset(start_bounds, mirrored)
    } else {
        mirrored
    }
}

impl Selector {
    /// Dispatches a pointer-down while a selection exists, consuming the
    /// destructured state and installing the successor state.
    ///
    /// From up or hover the hit-test priority is: add-to-selection (single
    /// style or shift held, over an unselected stroke), the rotate handle,
    /// the four resize handles, the bounds interior (translate), and
    /// otherwise deselect-and-finish. An active translate applies its
    /// snapped offset only past the zoom-scaled threshold; an active rotate
    /// applies its angle delta only past the fixed threshold; an active
    /// resize rescales the selection about the pivot opposite the dragged
    /// corner, and is skipped entirely when no selection size was cached.
    pub fn down_modify(
        &mut self,
        element: Element,
        modifier_keys: &Vec<ModifierKey>,
        modify_state: ModifyState,
        selection: &mut Vec<StrokeKey>,
        selection_bounds: &mut Aabb,
        widget_flags: &mut WidgetFlags,
        engine_view: &mut EngineView,
    ) -> (progress: PenProgress)
        requires
            old(engine_view).wf(),
            element.wf(),
            modify_state.wf(),
            old(engine_view).store.keys_valid(old(selection)@),
            old(selection_bounds).wf(),
        ensures
            final(engine_view).wf(),
            final(self).wf(final(engine_view).store),
            final(engine_view).selector_config == old(engine_view).selector_config,
            final(engine_view).store.n() == old(engine_view).store.n(),
            down_modify_spec(
                *old(engine_view),
                element,
                modifier_keys@,
                modify_state,
                old(selection)@,
                *old(selection_bounds),
                final(self).state,
                *final(engine_view),
                progress,
            ),
    {
        match modify_state {
            ModifyState::Up | ModifyState::Hover(_) => {
                let single: bool = engine_view.selector_config.style == SelectorStyle::Single;
                let shift: bool = contains_modifier(modifier_keys, ModifierKey::KeyboardShift);
                let mut hits: Vec<StrokeKey> = engine_view.store.stroke_hitboxes_contain_coord(
                    engine_view.camera.viewport,
                    element.pos,
                );
                let ghost hits0 = hits@;
                let ghost store0 = engine_view.store;
                let ghost vp0 = engine_view.camera.viewport;
                let key_to_add: Option<StrokeKey> = hits.pop();
                let addable: bool = match key_to_add {
                    Some(k) => match engine_view.store.selected(k) {
                        Some(s) => !s,
                        None => false,
                    },
                    None => false,
                };
                proof {
                    if hits0.len() > 0 {
                        let kk = hits0[hits0.len() - 1];
                        assert(is_topmost_hit(store0, vp0, element.pos, kk as int));
                        assert forall|k2: int|
                            is_topmost_hit(store0, vp0, element.pos, k2) implies k2 == kk as int by {
                            assert(store0.hits_coord(vp0, element.pos, k2));
                            assert(k2 <= kk as int);
                            if k2 < kk as int {
                                assert(!store0.hits_coord(vp0, element.pos, kk as int));
                            }
                        }
                    } else {
                        assert(forall|k2: int| !store0.hits_coord(vp0, element.pos, k2));
                    }
                }
                if (single || shift) && addable {
                    let k: StrokeKey = match key_to_add {
                        Some(k) => k,
                        None => 0,
                    };
                    engine_view.store.copy_ghost_stroke_width(selection);
                    engine_view.store.set_selected(k, true);
                    selection.push(k);
                    let nb: Option<Aabb> = engine_view.store.bounds_for_strokes(selection);
                    match nb {
                        Some(b) => {
                            *selection_bounds = b;
                            let ext: Vector2 = b.extents();
                            engine_view.store.initial_size_selection = Some(ext);
                        },
                        None => {},
                    }
                    let st: SelectorState = SelectorState::ModifySelection {
                        modify_state,
                        selection: take_keys(selection),
                        selection_bounds: *selection_bounds,
                    };
                    self.state = st;
                    proof {
                        let ki = k as int;
                        assert(is_topmost_hit(store0, vp0, element.pos, ki));
                        assert(!store0.strokes@[ki].selected);
                        assert(modify_sel_state(
                            self.state,
                            modify_state,
                            old(selection)@.push(k as StrokeKey),
                            engine_view.store.merged_bounds(
                                old(selection)@.push(k as StrokeKey),
                                old(selection)@.push(k as StrokeKey).len() as int,
                            ),
                        ));
                        assert(engine_view.store.selected_rendered(ki));
                    }
                    PenProgress::InProgress
                } else if rotate_node_contains(
                    selection_bounds,
                    engine_view.camera.zoom,
                    element.pos,
                ) {
                    let center: Vector2 = selection_bounds.center();
                    let d: Vector2 = dir_between(center, element.pos);
                    self.state = SelectorState::ModifySelection {
                        modify_state: ModifyState::Rotate {
                            rotation_center: center,
                            start_rotation_dir: d,
                            current_rotation_dir: d,
                        },
                        selection: take_keys(selection),
                        selection_bounds: *selection_bounds,
                    };
                    PenProgress::InProgress
                } else if resize_node_contains(
                    resize_corner_pos_exec(ResizeCorner::TopLeft, selection_bounds),
                    engine_view.camera.zoom,
                    element.pos,
                ) {
                    self.state = SelectorState::ModifySelection {
                        modify_state: ModifyState::Resize {
                            from_corner: ResizeCorner::TopLeft,
                            start_bounds: *selection_bounds,
                            start_pos: element.pos,
                        },
                        selection: take_keys(selection),
                        selection_bounds: *selection_bounds,
                    };
                    PenProgress::InProgress
                } else if resize_node_contains(
                    resize_corner_pos_exec(ResizeCorner::TopRight, selection_bounds),
                    engine_view.camera.zoom,
                    element.pos,
                ) {
                    self.state = SelectorState::ModifySelection {
                        modify_state: ModifyState::Resize {
                            from_corner: ResizeCorner::TopRight,
                            start_bounds: *selection_bounds,
                            start_pos: element.pos,
                        },
                        selection: take_keys(selection),
                        selection_bounds: *selection_bounds,
                    };
                    PenProgress::InProgress
                } else if resize_node_contains(
                    resize_corner_pos_exec(ResizeCorner::BottomLeft, selection_bounds),
                    engine_view.camera.zoom,
                    element.pos,
                ) {
                    self.state = SelectorState::ModifySelection {
                        modify_state: ModifyState::Resize {
                            from_corner: ResizeCorner::BottomLeft,
                            start_bounds: *selection_bounds,
                            start_pos: element.pos,
                        },
                        selection: take_keys(selection),
                        selection_bounds: *selection_bounds,
                    };
                    PenProgress::InProgress
                } else if resize_node_contains(
                    resize_corner_pos_exec(ResizeCorner::BottomRight, selection_bounds),
                    engine_view.camera.zoom,
                    element.pos,
                ) {
                    self.state = SelectorState::ModifySelection {
                        modify_state: ModifyState::Resize {
                            from_corner: ResizeCorner::BottomRight,
                            start_bounds: *selection_bounds,
                            start_pos: element.pos,
                        },
                        selection: take_keys(selection),
                        selection_bounds: *selection_bounds,
                    };
                    PenProgress::InProgress
                } else if selection_bounds.contains_local_point(element.pos) {
                    let snap_corner: SnapCorner = SnapCorner::determine_from_bounds(
                        selection_bounds,
                        element.pos,
                    );
                    self.state = SelectorState::ModifySelection {
                        modify_state: ModifyState::Translate {
                            start_pos: element.pos,
                            current_pos: element.pos,
                            snap_corner,
                        },
                        selection: take_keys(selection),
                        selection_bounds: *selection_bounds,
                    };
                    PenProgress::InProgress
                } else {
                    engine_view.store.copy_ghost_stroke_width(selection);
                    engine_view.store.set_selected_keys(selection, false);
                    self.state = SelectorState::Idle;
                    PenProgress::Finished
                }
            },
            ModifyState::Translate { start_pos, current_pos, snap_corner } => {
                let anchor: Vector2 = snap_corner_pos_exec(snap_corner, selection_bounds);
                let moved: Vector2 = anchor.plus(element.pos.minus(current_pos));
                let snapped: Vector2 = engine_view.document.snap_position(moved);
                let eff: Vector2 = snapped.minus(anchor);
                let mut new_current: Vector2 = current_pos;
                if offset_exceeds_threshold(
                    eff,
                    engine_view.camera.total_zoom(),
                    TRANSLATE_OFFSET_THRESHOLD,
                ) {
                    engine_view.store.translate_strokes(selection, eff);
                    *selection_bounds = selection_bounds.translate(eff);
                    new_current = current_pos.plus(eff);
                }
                let f1: WidgetFlags = engine_view.camera.nudge_w_pos(
                    element.pos,
                    &engine_view.document,
                );
                widget_flags.merge(f1);
                let f2: WidgetFlags = engine_view.document.expand_autoexpand(&engine_view.camera);
                widget_flags.merge(f2);
                engine_view.store.regenerate_rendering_in_viewport_threaded(
                    engine_view.camera.viewport,
                );
                self.state = SelectorState::ModifySelection {
                    modify_state: ModifyState::Translate {
                        start_pos,
                        current_pos: new_current,
                        snap_corner,
                    },
                    selection: take_keys(selection),
                    selection_bounds: *selection_bounds,
                };
                PenProgress::InProgress
            },
            ModifyState::Rotate { rotation_center, start_rotation_dir, current_rotation_dir } => {
                let new_dir: Vector2 = dir_between(rotation_center, element.pos);
                let mut cur_dir: Vector2 = current_rotation_dir;
                if rotation_exceeds_threshold(current_rotation_dir, new_dir) {
                    engine_view.store.rotate_strokes(
                        selection,
                        rotation_center,
                        current_rotation_dir,
                        new_dir,
                    );
                    let nb: Option<Aabb> = engine_view.store.bounds_for_strokes(selection);
                    match nb {
                        Some(b) => {
                            *selection_bounds = b;
                        },
                        None => {},
                    }
                    cur_dir = new_dir;
                }
                self.state = SelectorState::ModifySelection {
                    modify_state: ModifyState::Rotate {
                        rotation_center,
                        start_rotation_dir,
                        current_rotation_dir: cur_dir,
                    },
                    selection: take_keys(selection),
                    selection_bounds: *selection_bounds,
                };
                PenProgress::InProgress
            },
            ModifyState::Resize { from_corner, start_bounds, start_pos } => {
                let lock: bool = engine_view.selector_config.resize_lock_aspectratio
                    || contains_modifier(modifier_keys, ModifierKey::KeyboardCtrl);
                let anchor: Vector2 = resize_corner_pos_exec(from_corner, &start_bounds);
                let pivot: Vector2 = resize_pivot_pos_exec(from_corner, &start_bounds);
                let raw: Vector2 = element.pos.minus(start_pos);
                let pre: Vector2 = if !lock {
                    engine_view.document.snap_position(anchor.plus(raw)).minus(anchor)
                } else {
                    raw
                };
                let mirrored: Vector2 = mirror_offset_exec(from_corner, pre);
                let eff: Vector2 = if lock {
                    aspect_locked_offset_exec(&start_bounds, mirrored)
                } else {
                    mirrored
                };
                let init_size: Option<Vector2> = engine_view.store.initial_size_selection;
                match init_size {
                    Some(isz) => {
                        let ext: Vector2 = start_bounds.extents();
                        let tx: i64 = resize_target_extent_exec(ext.x, eff.x);
                        let ty: i64 = resize_target_extent_exec(ext.y, eff.y);
                        let cur: Vector2 = selection_bounds.extents();
                        let scale_resize: Scale2 = Scale2 {
                            x: Frac { num: tx, den: if cur.x >= 1 { cur.x } else { 1 } },
                            y: Frac { num: ty, den: if cur.y >= 1 { cur.y } else { 1 } },
                        };
                        let scale_stroke: Scale2 = Scale2 {
                            x: Frac { num: tx, den: if isz.x >= 1 { isz.x } else { 1 } },
                            y: Frac { num: ty, den: if isz.y >= 1 { isz.y } else { 1 } },
                        };
                        engine_view.store.scale_strokes_with_pivot(
                            selection,
                            scale_stroke,
                            scale_resize,
                            pivot,
                        );
                        *selection_bounds = resize_target_bounds_exec(from_corner, pivot, tx, ty);
                    },
                    None => {},
                }
                let f1: WidgetFlags = engine_view.camera.nudge_w_pos(
                    element.pos,
                    &engine_view.document,
                );
                widget_flags.merge(f1);
                let f2: WidgetFlags = engine_view.document.expand_autoexpand(&engine_view.camera);
                widget_flags.merge(f2);
                engine_view.store.regenerate_rendering_in_viewport_threaded(
                    engine_view.camera.viewport,
                );
                self.state = SelectorState::ModifySelection {
                    modify_state: ModifyState::Resize { from_corner, start_bounds, start_pos },
                    selection: take_keys(selection),
                    selection_bounds: *selection_bounds,
                };
                PenProgress::InProgress
            },
        }
    }
}

/// The state holds a selection path equal to `p`.
pub open spec fn selecting_state(st: SelectorState, p: Seq<Element>) -> bool {
    st matches SelectorState::Selecting { path } && path@ == p
}

/// The keys carried by a selection-modification state.
pub open spec fn sel_state_keys(st: SelectorState) -> Seq<StrokeKey> {
    match st {
        SelectorState::ModifySelection { selection, .. } => selection@,
        _ => Seq::empty(),
    }
}

/// The sub-state carried by a selection-modification state.
pub open spec fn sel_state_modify(st: SelectorState) -> ModifyState {
    match st {
        SelectorState::ModifySelection { modify_state, .. } => modify_state,
        _ => ModifyState::Up,
    }
}

/// The positions along a selection path.
pub open spec fn positions_of(path: Seq<Element>) -> Seq<Vector2> {
    path.map_values(|e: Element| e.pos)
}

/// Whether the active style selects stroke `k` when the path is finalized:
/// polygon containment, box containment, topmost pick, or path intersection,
/// each with its minimum path length.
pub open spec fn style_selects(engine: EngineView, path: Seq<Element>, k: int) -> bool {
    match engine.selector_config.style {
        SelectorStyle::Polygon => path.len() >= 3 && engine.store.contained_in_polygon(
            positions_of(path),
            engine.camera.viewport,
            k,
        ),
        SelectorStyle::Rectangle => path.len() >= 1 && engine.store.contained_in_box(
            Aabb::new_positive_spec(path[0].pos, path[path.len() - 1].pos),
            engine.camera.viewport,
            k,
        ),
        SelectorStyle::Single => path.len() >= 1 && is_topmost_hit(
            engine.store,
            engine.camera.viewport,
            path[path.len() - 1].pos,
            k,
        ),
        SelectorStyle::IntersectingPath => path.len() >= 3 && engine.store.intersects_path(
            positions_of(path),
            engine.camera.viewport,
            k,
        ),
    }
}

/// The hover-or-up sub-state after a pointer settles: hovering when the
/// selector's drawn footprint contains the position.
pub open spec fn hover_or_up(footprint: Option<Aabb>, pos: Vector2) -> ModifyState {
    match footprint {
        Some(b) => if b.contains_pt(pos) {
            ModifyState::Hover(pos)
        } else {
            ModifyState::Up
        },
        None => ModifyState::Up,
    }
}

impl Selector {
    /// Handles a pointer-up sample.
    ///
    /// Idle ignores it. Selecting finalizes the path under the active style:
    /// a nonempty catch selects exactly the strokes the style picks, caches
    /// the selection size and enters selection modification; an empty catch
    /// (always the case for polygon and intersecting-path styles with fewer
    /// than three samples) leaves the path and finishes. A selection commit
    /// records one history checkpoint when a drag was active, refits the
    /// document and settles into hover or up.
    pub fn handle_pen_event_up(
        &mut self,
        element: Element,
        modifier_keys: Vec<ModifierKey>,
        now: u64,
        engine_view: &mut EngineView,
    ) -> (r: (EventResult, WidgetFlags))
        requires
            old(self).wf(old(engine_view).store),
            old(engine_view).wf(),
            element.wf(),
        ensures
            final(self).wf(final(engine_view).store),
            final(engine_view).wf(),
            final(engine_view).selector_config == old(engine_view).selector_config,
            match old(self).state {
                SelectorState::Idle => {
                    &&& r.0 == ignored_result(PenProgress::Idle)
                    &&& final(self).state is Idle
                    &&& *final(engine_view) == *old(engine_view)
                    &&& r.1 == WidgetFlags::none_spec()
                },
                SelectorState::Selecting { path } => {
                    let any = exists|k: int| style_selects(*old(engine_view), path@, k);
                    &&& r.0.handled && r.0.propagate == EventPropagation::Stop
                    &&& final(engine_view).camera == old(engine_view).camera
                    &&& final(engine_view).document == old(engine_view).document
                    &&& (!any ==> selecting_state(final(self).state, path@) && final(engine_view).store.strokes@ == old(engine_view).store.strokes@ && r.0.progress
                        == PenProgress::Finished && r.1 == WidgetFlags::none_spec())
                    &&& (any ==> (forall|k: int|
                        0 <= k < old(engine_view).store.n() ==> #[trigger] final(engine_view).store.strokes@[k] == (if style_selects(*old(engine_view), path@, k) {
                            crate::store::Stroke {
                                selected: true,
                                ..old(engine_view).store.strokes@[k]
                            }
                        } else {
                            old(engine_view).store.strokes@[k]
                        })))
                    &&& (any ==> r.0.progress == PenProgress::InProgress && final(self).state
                        is ModifySelection && sel_state_modify(final(self).state)
                        == ModifyState::Up && (forall|k: int|
                        0 <= k < old(engine_view).store.n() ==> (sel_state_keys(
                            final(self).state,
                        ).contains(k as StrokeKey) <==> style_selects(*old(engine_view), path@, k)))
                        && sel_state_bounds(final(self).state) == final(engine_view).store.merged_bounds(
                        sel_state_keys(final(self).state),
                        sel_state_keys(final(self).state).len() as int,
                    ) && (forall|k: int|
                        0 <= k < old(engine_view).store.n() && style_selects(
                            *old(engine_view),
                            path@,
                            k,
                        ) ==> final(engine_view).store.selected_rendered(k)) && r.1.store_modified
                        && r.1.deselect_color_setters)
                },
                SelectorState::ModifySelection { modify_state, selection, selection_bounds } => {
                    let gesture = modify_state matches ModifyState::Translate { .. } || modify_state
                        matches ModifyState::Rotate { .. } || modify_state matches
                        ModifyState::Resize { .. };
                    &&& r.0 == handled_result(PenProgress::InProgress)
                    &&& final(engine_view).store.strokes@ == old(engine_view).store.strokes@
                    &&& final(self).state is ModifySelection
                    &&& sel_state_keys(final(self).state) == selection@
                    &&& sel_state_modify(final(self).state) == hover_or_up(
                        bounds_on_doc_spec(old(self).raw_bounds_spec(), old(engine_view).camera.zoom),
                        element.pos,
                    )
                    &&& final(engine_view).camera == old(engine_view).camera
                    &&& final(engine_view).document.snap_grid == old(engine_view).document.snap_grid
                    &&& (gesture ==> r.1.store_modified && final(engine_view).store.history_records
                        as int == if old(engine_view).store.history_records
                        < 0xffff_ffff_ffff_ffffu64 {
                        old(engine_view).store.history_records as int + 1
                    } else {
                        old(engine_view).store.history_records as int
                    } && (selection@.len() > 0 ==> sel_state_bounds(final(self).state) == final(engine_view).store.merged_bounds(selection@, selection@.len() as int))
                        && final(engine_view).document.bounds == crate::engine::Document::content_bounds(
                        old(engine_view).store,
                        old(engine_view).camera.viewport,
                        old(engine_view).store.n(),
                    ))
                    &&& (!gesture ==> final(engine_view).store.history_records == old(engine_view).store.history_records && sel_state_bounds(final(self).state)
                        == selection_bounds && final(engine_view).document == old(engine_view).document && r.1 == WidgetFlags::none_spec())
                },
            },
    {
        let mut widget_flags: WidgetFlags = WidgetFlags::none();
        let selector_bounds: Option<Aabb> = self.bounds_on_doc(engine_view);
        let mut state: SelectorState = SelectorState::Idle;
        core::mem::swap(&mut state, &mut self.state);
        let event_result: EventResult = match state {
            SelectorState::Idle => {
                self.state = SelectorState::Idle;
                EventResult {
                    handled: false,
                    propagate: EventPropagation::Proceed,
                    progress: PenProgress::Idle,
                }
            },
            SelectorState::Selecting { path } => {
                let mut progress: PenProgress = PenProgress::Finished;
                let style: SelectorStyle = engine_view.selector_config.style;
                let new_selection: Vec<StrokeKey> = Self::finalize_selection(
                    style,
                    &path,
                    engine_view,
                );
                if new_selection.len() > 0 {
                    engine_view.store.set_selected_keys(&new_selection, true);
                    widget_flags.store_modified = true;
                    widget_flags.deselect_color_setters = true;
                    let nb: Option<Aabb> = engine_view.store.bounds_for_strokes(&new_selection);
                    match nb {
                        Some(b) => {
                            let ext: Vector2 = b.extents();
                            engine_view.store.initial_size_selection = Some(ext);
                            self.state = SelectorState::ModifySelection {
                                modify_state: ModifyState::Up,
                                selection: new_selection,
                                selection_bounds: b,
                            };
                            progress = PenProgress::InProgress;
                        },
                        None => {
                            self.state = SelectorState::Selecting { path };
                        },
                    }
                } else {
                    proof {
                        if exists|k: int| style_selects(*old(engine_view), path@, k) {
                            let k = choose|k: int| style_selects(*old(engine_view), path@, k);
                            assert(new_selection@.contains(k as StrokeKey));
                        }
                    }
                    self.state = SelectorState::Selecting { path };
                }
                EventResult {
                    handled: true,
                    propagate: EventPropagation::Stop,
                    progress,
                }
            },
            SelectorState::ModifySelection { modify_state, selection, mut selection_bounds } => {
                let gesture: bool = match modify_state {
                    ModifyState::Translate { .. } => true,
                    ModifyState::Rotate { .. } => true,
                    ModifyState::Resize { .. } => true,
                    _ => false,
                };
                if gesture {
                    engine_view.store.update_geometry_for_strokes(&selection);
                    let f1: WidgetFlags = engine_view.document.resize_autoexpand(
                        &engine_view.store,
                        &engine_view.camera,
                    );
                    widget_flags.merge(f1);
                    engine_view.store.regenerate_rendering_in_viewport_threaded(
                        engine_view.camera.viewport,
                    );
                    let nb: Option<Aabb> = engine_view.store.bounds_for_strokes(&selection);
                    match nb {
                        Some(b) => {
                            selection_bounds = b;
                        },
                        None => {},
                    }
                    let f2: WidgetFlags = engine_view.store.record(now);
                    widget_flags.merge(f2);
                    widget_flags.store_modified = true;
                }
                let inside: bool = match &selector_bounds {
                    Some(b) => b.contains_local_point(element.pos),
                    None => false,
                };
                let new_modify: ModifyState = if inside {
                    ModifyState::Hover(element.pos)
                } else {
                    ModifyState::Up
                };
                self.state = SelectorState::ModifySelection {
                    modify_state: new_modify,
                    selection,
                    selection_bounds,
                };
                EventResult {
                    handled: true,
                    propagate: EventPropagation::Stop,
                    progress: PenProgress::InProgress,
                }
            },
        };
        let _ = modifier_keys;
        (event_result, widget_flags)
    }

    /// The keys the active style picks for a finished path.
    fn finalize_selection(
        style: SelectorStyle,
        path: &Vec<Element>,
        engine_view: &EngineView,
    ) -> (r: Vec<StrokeKey>)
        requires
            engine_view.wf(),
            forall|i: int| 0 <= i < path@.len() ==> (#[trigger] path@[i]).wf(),
            style == engine_view.selector_config.style,
        ensures
            forall|i: int|
                0 <= i < r@.len() ==> engine_view.store.valid_key(#[trigger] r@[i] as int),
            forall|k: int|
                0 <= k < engine_view.store.n() ==> (r@.contains(k as StrokeKey) <==> style_selects(
                    *engine_view,
                    path@,
                    k,
                )),
            forall|k: int|
                0 <= k < r@.len() ==> style_selects(*engine_view, path@, #[trigger] r@[k] as int),
    {
        let n: usize = path.len();
        let total_strokes: usize = engine_view.store.strokes.len();
        proof {
            assert(engine_view.store.n() == total_strokes as int);
        }
        match style {
            SelectorStyle::Polygon => {
                if n >= 3 {
                    let pp: Vec<Vector2> = crate::selector::path_positions(path);
                    proof {
                        assert(pp@ =~= positions_of(path@));
                    }
                    let rr: Vec<StrokeKey> =
                        engine_view.store.strokes_hitboxes_contained_in_path_polygon(
                        &pp,
                        engine_view.camera.viewport,
                    );
                    proof {
                        assert forall|k2: int|
                            0 <= k2 < engine_view.store.n() && rr@.contains(k2 as StrokeKey)
                            implies engine_view.store.contained_in_polygon(
                            pp@, engine_view.camera.viewport, k2) by {
                            let i = choose|i: int|
                                0 <= i < rr@.len() && rr@[i] == k2 as StrokeKey;
                            assert(rr@[i] as int == k2);
                            assert(engine_view.store.contained_in_polygon(
                                pp@, engine_view.camera.viewport, rr@[i] as int));
                        }
                    }
                    rr
                } else {
                    Vec::new()
                }
            },
            SelectorStyle::Rectangle => {
                if n >= 1 {
                    let first: Vector2 = path[0].pos;
                    let last: Vector2 = path[n - 1].pos;
                    let aabb: Aabb = Aabb::new_positive(first, last);
                    let rr: Vec<StrokeKey> = engine_view.store.strokes_hitboxes_contained_in_aabb(
                        aabb,
                        engine_view.camera.viewport,
                    );
                    proof {
                        assert forall|k2: int|
                            0 <= k2 < engine_view.store.n() && rr@.contains(k2 as StrokeKey)
                            implies engine_view.store.contained_in_box(
                            aabb, engine_view.camera.viewport, k2) by {
                            let i = choose|i: int|
                                0 <= i < rr@.len() && rr@[i] == k2 as StrokeKey;
                            assert(rr@[i] as int == k2);
                            assert(engine_view.store.contained_in_box(
                                aabb, engine_view.camera.viewport, rr@[i] as int));
                        }
                    }
                    rr
                } else {
                    Vec::new()
                }
            },
            SelectorStyle::Single => {
                if n >= 1 {
                    let last: Vector2 = path[n - 1].pos;
                    let mut hits: Vec<StrokeKey> = engine_view.store.stroke_hitboxes_contain_coord(
                        engine_view.camera.viewport,
                        last,
                    );
                    let ghost hits0 = hits@;
                    let top: Option<StrokeKey> = hits.pop();
                    let mut r: Vec<StrokeKey> = Vec::new();
                    match top {
                        Some(k) => {
                            r.push(k);
                            proof {
                                assert(is_topmost_hit(
                                    engine_view.store,
                                    engine_view.camera.viewport,
                                    last,
                                    k as int,
                                ));
                                assert(hits0.len() > 0);
                                assert(k == hits0[hits0.len() - 1]);
                                assert(engine_view.store.hits_coord(
                                    engine_view.camera.viewport, last, k as int));
                                assert forall|k2: int|
                                    0 <= k2 < engine_view.store.n() implies (r@.contains(
                                    k2 as StrokeKey) <==> style_selects(
                                    *engine_view,
                                    path@,
                                    k2,
                                )) by {
                                    if r@.contains(k2 as StrokeKey) {
                                        let i = choose|i: int|
                                            0 <= i < r@.len() && r@[i] == k2 as StrokeKey;
                                        assert(i == 0);
                                        assert(r@[0] == k);
                                        assert(k2 as StrokeKey as int == k2);
                                        assert(k2 == k as int);
                                        assert(style_selects(*engine_view, path@, k2));
                                    }
                                    if style_selects(*engine_view, path@, k2) {
                                        assert(engine_view.store.hits_coord(
                                            engine_view.camera.viewport, last, k2));
                                        assert(k2 <= k as int);
                                        if k2 < k as int {
                                            assert(!engine_view.store.hits_coord(
                                                engine_view.camera.viewport, last, k as int));
                                        }
                                        assert(k2 == k as int);
                                        assert(r@[0] == k2 as StrokeKey);
                                        assert(r@.contains(k2 as StrokeKey));
                                    }
                                }
                            }
                        },
                        None => {},
                    }
                    r
                } else {
                    Vec::new()
                }
            },
            SelectorStyle::IntersectingPath => {
                if n >= 3 {
                    let pp: Vec<Vector2> = crate::selector::path_positions(path);
                    proof {
                        assert(pp@ =~= positions_of(path@));
                    }
                    let rr: Vec<StrokeKey> = engine_view.store.strokes_hitboxes_intersect_path(
                        &pp,
                        engine_view.camera.viewport,
                    );
                    proof {
                        assert forall|k2: int|
                            0 <= k2 < engine_view.store.n() && rr@.contains(k2 as StrokeKey)
                            implies engine_view.store.intersects_path(
                            pp@, engine_view.camera.viewport, k2) by {
                            let i = choose|i: int|
                                0 <= i < rr@.len() && rr@[i] == k2 as StrokeKey;
                            assert(rr@[i] as int == k2);
                            assert(engine_view.store.intersects_path(
                                pp@, engine_view.camera.viewport, rr@[i] as int));
                        }
                    }
                    rr
                } else {
                    Vec::new()
                }
            },
        }
    }

    /// Handles a proximity (hover without press) sample: ignored when idle,
    /// swallowed while selecting, and with a selection it settles the
    /// sub-state into hover or up by the drawn footprint.
    pub fn handle_pen_event_proximity(
        &mut self,
        element: Element,
        modifier_keys: Vec<ModifierKey>,
        now: u64,
        engine_view: &mut EngineView,
    ) -> (r: (EventResult, WidgetFlags))
        requires
            old(self).wf(old(engine_view).store),
            old(engine_view).wf(),
            element.wf(),
        ensures
            final(self).wf(final(engine_view).store),
            *final(engine_view) == *old(engine_view),
            r.1 == WidgetFlags::none_spec(),
            match old(self).state {
                SelectorState::Idle => r.0 == ignored_result(PenProgress::Idle) && final(self).state is Idle,
                SelectorState::Selecting { path } => r.0 == handled_result(PenProgress::InProgress)
                    && selecting_state(final(self).state, path@),
                SelectorState::ModifySelection { modify_state, selection, selection_bounds } => {
                    &&& r.0 == handled_result(PenProgress::InProgress)
                    &&& final(self).state is ModifySelection
                    &&& sel_state_keys(final(self).state) == selection@
                    &&& sel_state_bounds(final(self).state) == selection_bounds
                    &&& sel_state_modify(final(self).state) == hover_or_up(
                        bounds_on_doc_spec(old(self).raw_bounds_spec(), old(engine_view).camera.zoom),
                        element.pos,
                    )
                },
            },
    {
        let _ = modifier_keys;
        let _ = now;
        let selector_bounds: Option<Aabb> = self.bounds_on_doc(engine_view);
        let mut state: SelectorState = SelectorState::Idle;
        core::mem::swap(&mut state, &mut self.state);
        let event_result: EventResult = match state {
            SelectorState::Idle => {
                self.state = SelectorState::Idle;
                EventResult {
                    handled: false,
                    propagate: EventPropagation::Proceed,
                    progress: PenProgress::Idle,
                }
            },
            SelectorState::Selecting { path } => {
                self.state = SelectorState::Selecting { path };
                EventResult {
                    handled: true,
                    propagate: EventPropagation::Stop,
                    progress: PenProgress::InProgress,
                }
            },
            SelectorState::ModifySelection { modify_state: _, selection, selection_bounds } => {
                let inside: bool = match &selector_bounds {
                    Some(b) => b.contains_local_point(element.pos),
                    None => false,
                };
                let new_modify: ModifyState = if inside {
                    ModifyState::Hover(element.pos)
                } else {
                    ModifyState::Up
                };
                self.state = SelectorState::ModifySelection {
                    modify_state: new_modify,
                    selection,
                    selection_bounds,
                };
                EventResult {
                    handled: true,
                    propagate: EventPropagation::Stop,
                    progress: PenProgress::InProgress,
                }
            },
        };
        (event_result, WidgetFlags::none())
    }
}

impl Selector {
    /// Selects every untrashed stroke; with any to select, enters selection
    /// modification over all of them and caches the selection size.
    pub fn select_all(&mut self, engine_view: &mut EngineView, widget_flags: &mut WidgetFlags)
        requires
            old(self).wf(old(engine_view).store),
            old(engine_view).wf(),
        ensures
            final(engine_view).wf(),
            final(self).wf(final(engine_view).store),
            final(engine_view).selector_config == old(engine_view).selector_config,
            final(engine_view).store.n() == old(engine_view).store.n(),
            forall|k: int|
                0 <= k < old(engine_view).store.n() && !old(engine_view).store.strokes@[k].trashed
                    ==> final(engine_view).store.selected_rendered(k),
            forall|k: int|
                0 <= k < old(engine_view).store.n() ==> (#[trigger] final(engine_view).store.strokes@[k]).trashed == old(engine_view).store.strokes@[k].trashed,
            (exists|k: int|
                0 <= k < old(engine_view).store.n() && !old(engine_view).store.strokes@[k].trashed)
                ==> final(self).state is ModifySelection && sel_state_modify(final(self).state)
                == ModifyState::Up && (forall|k: int|
                0 <= k < old(engine_view).store.n() ==> (sel_state_keys(final(self).state).contains(
                    k as StrokeKey,
                ) <==> !old(engine_view).store.strokes@[k].trashed)) && sel_state_bounds(
                final(self).state,
            ) == final(engine_view).store.merged_bounds(
                sel_state_keys(final(self).state),
                sel_state_keys(final(self).state).len() as int,
            ) && final(widget_flags).store_modified,
    {
        let total_strokes: usize = engine_view.store.strokes.len();
        proof {
            assert(engine_view.store.n() == total_strokes as int);
        }
        let keys: Vec<StrokeKey> = engine_view.store.stroke_keys_as_rendered();
        proof {
            assert forall|k: int|
                0 <= k < engine_view.store.n() && keys@.contains(k as StrokeKey)
                implies !engine_view.store.strokes@[k].trashed by {
                let i = choose|i: int| 0 <= i < keys@.len() && keys@[i] == k as StrokeKey;
                assert(keys@[i] as int == k);
                assert(!engine_view.store.strokes@[keys@[i] as int].trashed);
            }
        }
        if keys.len() > 0 {
            engine_view.store.set_selected_keys(&keys, true);
            let nb: Option<Aabb> = engine_view.store.bounds_for_strokes(&keys);
            match nb {
                Some(b) => {
                    let ext: Vector2 = b.extents();
                    engine_view.store.initial_size_selection = Some(ext);
                    self.state = SelectorState::ModifySelection {
                        modify_state: ModifyState::Up,
                        selection: keys,
                        selection_bounds: b,
                    };
                },
                None => {},
            }
            widget_flags.store_modified = true;
            widget_flags.deselect_color_setters = true;
        } else {
            proof {
                if exists|k: int|
                    0 <= k < old(engine_view).store.n() && !old(engine_view).store.strokes@[k].trashed {
                    let k = choose|k: int|
                        0 <= k < old(engine_view).store.n() && !old(engine_view).store.strokes@[k].trashed;
                    assert(keys@.contains(k as StrokeKey));
                }
            }
        }
    }

    /// Handles a key press. `a` selects every stroke in any state and is
    /// always consumed. With a selection: `d` duplicates it when control is
    /// held, and is consumed with a finished progress either way; delete and
    /// backspace trash exactly the selected strokes and return to idle;
    /// escape cancels the selection, trashing nothing, and returns to idle.
    /// Any other key passes through.
    pub fn handle_pen_event_keypressed(
        &mut self,
        keyboard_key: KeyboardKey,
        modifier_keys: Vec<ModifierKey>,
        now: u64,
        engine_view: &mut EngineView,
    ) -> (r: (EventResult, WidgetFlags))
        requires
            old(self).wf(old(engine_view).store),
            old(engine_view).wf(),
        ensures
            final(self).wf(final(engine_view).store),
            final(engine_view).wf(),
            final(engine_view).selector_config == old(engine_view).selector_config,
            keyboard_key == KeyboardKey::Unicode('a') ==> r.0 == handled_result(
                PenProgress::InProgress,
            ) && forall|k: int|
                0 <= k < old(engine_view).store.n() && !old(engine_view).store.strokes@[k].trashed
                    ==> final(engine_view).store.selected_rendered(k),
            match old(self).state {
                SelectorState::Idle => {
                    keyboard_key != KeyboardKey::Unicode('a') ==> r.0 == ignored_result(
                        PenProgress::InProgress,
                    ) && *final(engine_view) == *old(engine_view) && final(self).state is Idle
                        && r.1 == WidgetFlags::none_spec()
                },
                SelectorState::Selecting { path } => {
                    keyboard_key != KeyboardKey::Unicode('a') ==> r.0 == ignored_result(
                        PenProgress::InProgress,
                    ) && *final(engine_view) == *old(engine_view) && selecting_state(
                        final(self).state,
                        path@,
                    ) && r.1 == WidgetFlags::none_spec()
                },
                SelectorState::ModifySelection { modify_state, selection, selection_bounds } => {
                    match keyboard_key {
                        KeyboardKey::Unicode(c) => {
                            &&& (c == 'd' ==> r.0 == handled_result(PenProgress::Finished)
                                && modify_sel_state(
                                final(self).state,
                                modify_state,
                                selection@,
                                selection_bounds,
                            ) && (!modifier_keys@.contains(ModifierKey::KeyboardCtrl) ==> *final(engine_view) == *old(engine_view) && r.1 == WidgetFlags::none_spec()) && (
                            modifier_keys@.contains(ModifierKey::KeyboardCtrl) ==> final(engine_view).store.n() == old(engine_view).store.n() + old(engine_view).store.sel_count(old(engine_view).store.n()) && (forall|k: int|
                                0 <= k < old(engine_view).store.n() && !old(
                                    engine_view,
                                ).store.selected_rendered(k) ==> #[trigger] final(engine_view).store.strokes@[k] == old(engine_view).store.strokes@[k]) && (forall|k: int|
                                0 <= k < old(engine_view).store.n() && old(
                                    engine_view,
                                ).store.selected_rendered(k) ==> #[trigger] final(engine_view).store.strokes@[k] == (crate::store::Stroke {
                                    selected: false,
                                    ..old(engine_view).store.strokes@[k]
                                })) && (forall|k: int|
                                old(engine_view).store.n() <= k < final(engine_view).store.n()
                                    ==> final(engine_view).store.selected_rendered(k))
                                && final(engine_view).store.history_records as int == (if old(engine_view).store.history_records < 0xffff_ffff_ffff_ffffu64 {
                                old(engine_view).store.history_records as int + 1
                            } else {
                                old(engine_view).store.history_records as int
                            }) && r.1.store_modified && r.1.resize))
                            &&& (c != 'd' && c != 'a' ==> r.0 == ignored_result(
                                PenProgress::InProgress,
                            ) && *final(engine_view) == *old(engine_view) && modify_sel_state(
                                final(self).state,
                                modify_state,
                                selection@,
                                selection_bounds,
                            ) && r.1 == WidgetFlags::none_spec())
                        },
                        KeyboardKey::Delete | KeyboardKey::BackSpace => {
                            &&& r.0 == handled_result(PenProgress::Finished)
                            &&& final(self).state is Idle
                            &&& forall|k: int|
                                0 <= k < old(engine_view).store.n() && selection@.contains(
                                    k as StrokeKey,
                                ) ==> (#[trigger] final(engine_view).store.strokes@[k]).trashed
                                    && !final(engine_view).store.strokes@[k].selected
                            &&& forall|k: int|
                                0 <= k < old(engine_view).store.n() && !selection@.contains(
                                    k as StrokeKey,
                                ) ==> (#[trigger] final(engine_view).store.strokes@[k]).trashed
                                    == old(engine_view).store.strokes@[k].trashed
                            &&& r.1.store_modified
                        },
                        KeyboardKey::Escape => {
                            &&& r.0 == handled_result(PenProgress::Finished)
                            &&& final(self).state is Idle
                            &&& forall|k: int|
                                0 <= k < old(engine_view).store.n() ==> (#[trigger] final(engine_view).store.strokes@[k]).trashed == old(engine_view).store.strokes@[k].trashed
                            &&& forall|k: int|
                                0 <= k < old(engine_view).store.n() && selection@.contains(
                                    k as StrokeKey,
                                ) ==> !(#[trigger] final(engine_view).store.strokes@[k]).selected
                            &&& r.1.store_modified
                        },
                        KeyboardKey::Other => r.0 == ignored_result(PenProgress::InProgress)
                            && *final(engine_view) == *old(engine_view) && modify_sel_state(
                            final(self).state,
                            modify_state,
                            selection@,
                            selection_bounds,
                        ) && r.1 == WidgetFlags::none_spec(),
                    }
                },
            },
    {
        let mut widget_flags: WidgetFlags = WidgetFlags::none();
        let mut state: SelectorState = SelectorState::Idle;
        core::mem::swap(&mut state, &mut self.state);
        let event_result: EventResult = match state {
            SelectorState::Idle => {
                match keyboard_key {
                    KeyboardKey::Unicode(c) => {
                        if c == 'a' {
                            self.state = SelectorState::Idle;
                            self.select_all(engine_view, &mut widget_flags);
                            EventResult {
                                handled: true,
                                propagate: EventPropagation::Stop,
                                progress: PenProgress::InProgress,
                            }
                        } else {
                            self.state = SelectorState::Idle;
                            EventResult {
                                handled: false,
                                propagate: EventPropagation::Proceed,
                                progress: PenProgress::InProgress,
                            }
                        }
                    },
                    _ => {
                        self.state = SelectorState::Idle;
                        EventResult {
                            handled: false,
                            propagate: EventPropagation::Proceed,
                            progress: PenProgress::InProgress,
                        }
                    },
                }
            },
            SelectorState::Selecting { path } => {
                match keyboard_key {
                    KeyboardKey::Unicode(c) => {
                        if c == 'a' {
                            self.state = SelectorState::Selecting { path };
                            self.select_all(engine_view, &mut widget_flags);
                            EventResult {
                                handled: true,
                                propagate: EventPropagation::Stop,
                                progress: PenProgress::InProgress,
                            }
                        } else {
                            self.state = SelectorState::Selecting { path };
                            EventResult {
                                handled: false,
                                propagate: EventPropagation::Proceed,
                                progress: PenProgress::InProgress,
                            }
                        }
                    },
                    _ => {
                        self.state = SelectorState::Selecting { path };
                        EventResult {
                            handled: false,
                            propagate: EventPropagation::Proceed,
                            progress: PenProgress::InProgress,
                        }
                    },
                }
            },
            SelectorState::ModifySelection { modify_state, selection, selection_bounds } => {
                match keyboard_key {
                    KeyboardKey::Unicode(c) => {
                        if c == 'a' {
                            self.state = SelectorState::ModifySelection {
                                modify_state,
                                selection,
                                selection_bounds,
                            };
                            self.select_all(engine_view, &mut widget_flags);
                            EventResult {
                                handled: true,
                                propagate: EventPropagation::Stop,
                                progress: PenProgress::InProgress,
                            }
                        } else if c == 'd' {
                            if contains_modifier(&modifier_keys, ModifierKey::KeyboardCtrl) {
                                let old_n: usize = engine_view.store.strokes.len();
                                let duplicated: Vec<StrokeKey> =
                                    engine_view.store.duplicate_selection();
                                engine_view.store.update_geometry_for_strokes(&duplicated);
                                engine_view.store.regenerate_rendering_for_strokes_threaded(
                                    &duplicated,
                                    engine_view.camera.viewport,
                                );
                                let f: WidgetFlags = engine_view.store.record(now);
                                widget_flags.merge(f);
                                widget_flags.resize = true;
                                widget_flags.store_modified = true;
                                proof {
                                    assert forall|k: int|
                                        old_n as int <= k < engine_view.store.n()
                                        implies engine_view.store.selected_rendered(k) by {
                                        let i = k - old_n as int;
                                        assert(duplicated@[i] as int == old_n as int + i);
                                        assert(engine_view.store.selected_rendered(
                                            duplicated@[i] as int));
                                    }
                                }
                            }
                            self.state = SelectorState::ModifySelection {
                                modify_state,
                                selection,
                                selection_bounds,
                            };
                            EventResult {
                                handled: true,
                                propagate: EventPropagation::Stop,
                                progress: PenProgress::Finished,
                            }
                        } else {
                            self.state = SelectorState::ModifySelection {
                                modify_state,
                                selection,
                                selection_bounds,
                            };
                            EventResult {
                                handled: false,
                                propagate: EventPropagation::Proceed,
                                progress: PenProgress::InProgress,
                            }
                        }
                    },
                    KeyboardKey::Delete | KeyboardKey::BackSpace => {
                        engine_view.store.set_trashed_keys(&selection, true);
                        let f: WidgetFlags = cancel_selection(&selection, engine_view);
                        widget_flags.merge(f);
                        self.state = SelectorState::Idle;
                        EventResult {
                            handled: true,
                            propagate: EventPropagation::Stop,
                            progress: PenProgress::Finished,
                        }
                    },
                    KeyboardKey::Escape => {
                        let f: WidgetFlags = cancel_selection(&selection, engine_view);
                        widget_flags.merge(f);
                        self.state = SelectorState::Idle;
                        EventResult {
                            handled: true,
                            propagate: EventPropagation::Stop,
                            progress: PenProgress::Finished,
                        }
                    },
                    KeyboardKey::Other => {
                        self.state = SelectorState::ModifySelection {
                            modify_state,
                            selection,
                            selection_bounds,
                        };
                        EventResult {
                            handled: false,
                            propagate: EventPropagation::Proceed,
                            progress: PenProgress::InProgress,
                        }
                    },
                }
            },
        };
        (event_result, widget_flags)
    }

    /// Handles text input: never consumed, in any state.
    pub fn handle_pen_event_text(
        &mut self,
        text: String,
        now: u64,
        engine_view: &mut EngineView,
    ) -> (r: (EventResult, WidgetFlags))
        requires
            old(self).wf(old(engine_view).store),
            old(engine_view).wf(),
        ensures
            *final(self) == *old(self),
            *final(engine_view) == *old(engine_view),
            r.1 == WidgetFlags::none_spec(),
            !r.0.handled && r.0.propagate == EventPropagation::Proceed,
            r.0.progress == (if old(self).state is Idle {
                PenProgress::Idle
            } else {
                PenProgress::InProgress
            }),
    {
        let _ = text;
        let _ = now;
        let progress: PenProgress = match &self.state {
            SelectorState::Idle => PenProgress::Idle,
            _ => PenProgress::InProgress,
        };
        (
            EventResult { handled: false, propagate: EventPropagation::Proceed, progress },
            WidgetFlags::none(),
        )
    }

    /// Handles a cancellation: any in-progress gesture or selection is
    /// dropped, nothing is trashed and no history is recorded.
    pub fn handle_pen_event_cancel(&mut self, now: u64, engine_view: &mut EngineView) -> (r: (
        EventResult,
        WidgetFlags,
    ))
        requires
            old(self).wf(old(engine_view).store),
            old(engine_view).wf(),
        ensures
            final(self).wf(final(engine_view).store),
            final(engine_view).wf(),
            final(engine_view).store.history_records == old(engine_view).store.history_records,
            forall|k: int|
                0 <= k < old(engine_view).store.n() ==> (#[trigger] final(engine_view).store.strokes@[k]).trashed == old(engine_view).store.strokes@[k].trashed,
            match old(self).state {
                SelectorState::Idle => r.0 == ignored_result(PenProgress::Idle) && final(self).state is Idle && *final(engine_view) == *old(engine_view),
                SelectorState::Selecting { .. } => r.0 == handled_result(PenProgress::Finished)
                    && final(self).state is Idle && *final(engine_view) == *old(engine_view),
                SelectorState::ModifySelection { modify_state, selection, selection_bounds } => {
                    &&& r.0 == handled_result(PenProgress::Finished)
                    &&& final(self).state is Idle
                    &&& forall|k: int|
                        0 <= k < old(engine_view).store.n() && selection@.contains(k as StrokeKey)
                            ==> !(#[trigger] final(engine_view).store.strokes@[k]).selected
                    &&& r.1.store_modified
                },
            },
    {
        let _ = now;
        let mut widget_flags: WidgetFlags = WidgetFlags::none();
        let mut state: SelectorState = SelectorState::Idle;
        core::mem::swap(&mut state, &mut self.state);
        let event_result: EventResult = match state {
            SelectorState::Idle => {
                self.state = SelectorState::Idle;
                EventResult {
                    handled: false,
                    propagate: EventPropagation::Proceed,
                    progress: PenProgress::Idle,
                }
            },
            SelectorState::Selecting { .. } => {
                self.state = SelectorState::Idle;
                EventResult {
                    handled: true,
                    propagate: EventPropagation::Stop,
                    progress: PenProgress::Finished,
                }
            },
            SelectorState::ModifySelection { selection, .. } => {
                let f: WidgetFlags = cancel_selection(&selection, engine_view);
                widget_flags.merge(f);
                self.state = SelectorState::Idle;
                EventResult {
                    handled: true,
                    propagate: EventPropagation::Stop,
                    progress: PenProgress::Finished,
                }
            },
        };
        (event_result, widget_flags)
    }
}

/// Takes the key list out of a mutable slot, leaving it empty.
fn take_keys(keys: &mut Vec<StrokeKey>) -> (r: Vec<StrokeKey>)
    ensures
        r@ == old(keys)@,
{
    let mut out: Vec<StrokeKey> = Vec::new();
    core::mem::swap(&mut out, keys);
    out
}

/// The aspect-locked offset: both axes move by the start extents scaled by
/// the ratio of summed offsets to summed extents, rounded toward zero. A
/// degenerate selection (no extent at all) yields a zero offset.
pub open spec fn aspect_locked_offset(start_bounds: Aabb, o: Vector2) -> Vector2 {
    let sm2 = start_bounds.width() + start_bounds.height();
    let om2 = o.x as int + o.y as int;
    if sm2 <= 0 {
        Vector2 { x: 0, y: 0 }
    } else {
        Vector2 {
            x: crate::geom::div_trunc(start_bounds.width() * om2, sm2) as i64,
            y: crate::geom::div_trunc(start_bounds.height() * om2, sm2) as i64,
        }
    }
}

} // verus!
