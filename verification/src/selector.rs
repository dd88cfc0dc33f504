//! The selector pen tool's state machine: its states, the decoration-handle
//! hit zones, snapping anchors, and the shared selection routines.

use vstd::prelude::*;
use crate::engine::{EngineView, SelectorStyle};
use crate::geom::{
    mul_i128, wide_mul, Aabb, Frac, Vector2,
};
use crate::penevent::{Element, WidgetFlags};
use crate::store::{StrokeKey, StrokeStore};

verus! {

/// Half-width of a resize handle at zoom one, in document units.
pub const RESIZE_NODE_HALF: i64 = 8;

/// How far outside the top-right corner the rotate handle sits, at zoom one.
pub const ROTATE_NODE_OFFSET: i64 = 20;

/// Radius of the rotate handle at zoom one.
pub const ROTATE_NODE_RADIUS: i64 = 10;

/// Margin the drawn selection decoration adds around the bounds, at zoom one.
pub const SELECTOR_BOUNDS_MARGIN: i64 = 10;

/// The four corners a resize can be dragged from.
#[derive(Clone, Copy, Debug, PartialEq, Eq, Structural)]
pub enum ResizeCorner {
    TopLeft,
    TopRight,
    BottomLeft,
    BottomRight,
}

/// The bounds corner used as the snapping anchor of a translation.
#[derive(Clone, Copy, Debug, PartialEq, Eq, Structural)]
pub enum SnapCorner {
    TopLeft,
    TopRight,
    BottomLeft,
    BottomRight,
}

/// The sub-state while a selection exists.
#[derive(Clone, Copy, Debug, PartialEq, Eq, Structural)]
pub enum ModifyState {
    /// Pointer not over any selection decoration.
    Up,
    /// Pointer hovering over the selection.
    Hover(Vector2),
    /// An in-progress translation drag.
    Translate { start_pos: Vector2, current_pos: Vector2, snap_corner: SnapCorner },
    /// An in-progress rotation drag; angles are carried as the direction
    /// vectors from the rotation center toward the pointer.
    Rotate { rotation_center: Vector2, start_rotation_dir: Vector2, current_rotation_dir: Vector2 },
    /// An in-progress resize drag.
    Resize { from_corner: ResizeCorner, start_bounds: Aabb, start_pos: Vector2 },
}

impl ModifyState {
    pub open spec fn wf(self) -> bool {
        match self {
            ModifyState::Up => true,
            ModifyState::Hover(p) => p.wf(),
            ModifyState::Translate { start_pos, current_pos, .. } => start_pos.wf()
                && current_pos.wf(),
            ModifyState::Rotate { rotation_center, start_rotation_dir, current_rotation_dir } =>
                rotation_center.wf() && crate::geom::dir_in_range(start_rotation_dir)
                && crate::geom::dir_in_range(current_rotation_dir),
            ModifyState::Resize { start_bounds, start_pos, .. } => start_bounds.wf()
                && start_pos.wf(),
        }
    }
}

impl Default for ModifyState {
    /// The pointer starts lifted.
    fn default() -> (r: ModifyState)
        ensures
            r == ModifyState::Up,
    {
        ModifyState::Up
    }
}

/// The selector's top-level state.
#[derive(Debug)]
pub enum SelectorState {
    /// No active interaction.
    Idle,
    /// A selection path is being drawn.
    Selecting { path: Vec<Element> },
    /// A selection exists and may be moved, rotated or resized.
    ModifySelection {
        modify_state: ModifyState,
        selection: Vec<StrokeKey>,
        selection_bounds: Aabb,
    },
}

/// The selector pen tool.
#[derive(Debug)]
pub struct Selector {
    pub state: SelectorState,
}

impl Selector {
    /// The state is well formed against the store: path points on the
    /// canvas, selection keys valid, bounds ordered.
    pub open spec fn wf(self, store: StrokeStore) -> bool {
        match self.state {
            SelectorState::Idle => true,
            SelectorState::Selecting { path } => forall|i: int|
                0 <= i < path@.len() ==> (#[trigger] path@[i]).wf(),
            SelectorState::ModifySelection { modify_state, selection, selection_bounds } =>
                modify_state.wf() && store.keys_valid(selection@) && selection_bounds.wf(),
        }
    }

    /// A fresh selector, idle.
    pub fn new() -> (r: Selector)
        ensures
            r.state is Idle,
    {
        Selector { state: SelectorState::Idle }
    }
}

/// The position of a resize corner on a box.
pub open spec fn resize_corner_pos(corner: ResizeCorner, b: Aabb) -> Vector2 {
    match corner {
        ResizeCorner::TopLeft => b.mins,
        ResizeCorner::TopRight => Vector2 { x: b.maxs.x, y: b.mins.y },
        ResizeCorner::BottomLeft => Vector2 { x: b.mins.x, y: b.maxs.y },
        ResizeCorner::BottomRight => b.maxs,
    }
}

/// The pivot of a resize: the corner diagonally opposite the dragged one.
pub open spec fn resize_pivot_pos(corner: ResizeCorner, b: Aabb) -> Vector2 {
    match corner {
        ResizeCorner::TopLeft => b.maxs,
        ResizeCorner::TopRight => Vector2 { x: b.mins.x, y: b.maxs.y },
        ResizeCorner::BottomLeft => Vector2 { x: b.maxs.x, y: b.mins.y },
        ResizeCorner::BottomRight => b.mins,
    }
}

/// The position of a snap corner on a box.
pub open spec fn snap_corner_pos(sc: SnapCorner, b: Aabb) -> Vector2 {
    match sc {
        SnapCorner::TopLeft => b.mins,
        SnapCorner::TopRight => Vector2 { x: b.maxs.x, y: b.mins.y },
        SnapCorner::BottomLeft => Vector2 { x: b.mins.x, y: b.maxs.y },
        SnapCorner::BottomRight => b.maxs,
    }
}

/// The bounds corner nearest the position, decided by center halves.
pub open spec fn determine_snap_corner_spec(b: Aabb, pos: Vector2) -> SnapCorner {
    let c = b.center_spec();
    if pos.x < c.x {
        if pos.y < c.y {
            SnapCorner::TopLeft
        } else {
            SnapCorner::BottomLeft
        }
    } else {
        if pos.y < c.y {
            SnapCorner::TopRight
        } else {
            SnapCorner::BottomRight
        }
    }
}

impl SnapCorner {
    /// The bounds corner nearest the position.
    pub fn determine_from_bounds(b: &Aabb, pos: Vector2) -> (r: SnapCorner)
        requires
            b.wf(),
        ensures
            r == determine_snap_corner_spec(*b, pos),
    {
        let c: Vector2 = b.center();
        if pos.x < c.x {
            if pos.y < c.y {
                SnapCorner::TopLeft
            } else {
                SnapCorner::BottomLeft
            }
        } else {
            if pos.y < c.y {
                SnapCorner::TopRight
            } else {
                SnapCorner::BottomRight
            }
        }
    }
}

/// Whether `p` lies in the square resize handle at `corner_pos`, whose
/// on-screen size is constant: half-width `RESIZE_NODE_HALF / zoom`.
pub open spec fn resize_node_contains_spec(corner_pos: Vector2, zoom: Frac, p: Vector2) -> bool {
    let dx = if p.x >= corner_pos.x {
        p.x as int - corner_pos.x as int
    } else {
        corner_pos.x as int - p.x as int
    };
    let dy = if p.y >= corner_pos.y {
        p.y as int - corner_pos.y as int
    } else {
        corner_pos.y as int - p.y as int
    };
    dx * zoom.num as int <= RESIZE_NODE_HALF as int * zoom.den as int && dy * zoom.num as int
        <= RESIZE_NODE_HALF as int * zoom.den as int
}

pub fn resize_node_contains(corner_pos: Vector2, zoom: Frac, p: Vector2) -> (r: bool)
    requires
        corner_pos.wf(),
        p.wf(),
        zoom.wf(),
    ensures
        r == resize_node_contains_spec(corner_pos, zoom, p),
{
    let dx: i64 = if p.x >= corner_pos.x {
        p.x - corner_pos.x
    } else {
        corner_pos.x - p.x
    };
    let dy: i64 = if p.y >= corner_pos.y {
        p.y - corner_pos.y
    } else {
        corner_pos.y - p.y
    };
    let lim: i128 = wide_mul(RESIZE_NODE_HALF, zoom.den);
    wide_mul(dx, zoom.num) <= lim && wide_mul(dy, zoom.num) <= lim
}

/// Whether `p` lies in the circular rotate handle, which sits outside the
/// bounds' top-right corner, offset and sized inversely to the zoom.
pub open spec fn rotate_node_contains_spec(b: Aabb, zoom: Frac, p: Vector2) -> bool {
    let qx = (p.x as int - b.maxs.x as int) * zoom.num as int - ROTATE_NODE_OFFSET as int
        * zoom.den as int;
    let qy = (p.y as int - b.mins.y as int) * zoom.num as int + ROTATE_NODE_OFFSET as int
        * zoom.den as int;
    qx * qx + qy * qy <= ROTATE_NODE_RADIUS as int * ROTATE_NODE_RADIUS as int * (zoom.den as int
        * zoom.den as int)
}

pub fn rotate_node_contains(b: &Aabb, zoom: Frac, p: Vector2) -> (r: bool)
    requires
        b.wf(),
        p.wf(),
        zoom.wf(),
    ensures
        r == rotate_node_contains_spec(*b, zoom, p),
{
    proof {
        crate::geom::lemma_mul_bound(
            p.x as int - b.maxs.x as int, zoom.num as int, 2_000_000, 8_000_000);
        crate::geom::lemma_mul_bound(
            p.y as int - b.mins.y as int, zoom.num as int, 2_000_000, 8_000_000);
        crate::geom::lemma_mul_bound(ROTATE_NODE_OFFSET as int, zoom.den as int, 20, 8_000_000);
        crate::geom::lemma_mul_bound(zoom.den as int, zoom.den as int, 8_000_000, 8_000_000);
    }
    let qx: i128 = wide_mul(p.x - b.maxs.x, zoom.num) - wide_mul(ROTATE_NODE_OFFSET, zoom.den);
    let qy: i128 = wide_mul(p.y - b.mins.y, zoom.num) + wide_mul(ROTATE_NODE_OFFSET, zoom.den);
    proof {
        crate::geom::lemma_mul_bound(qx as int, qx as int, 20_000_000_000_000,
            20_000_000_000_000);
        crate::geom::lemma_mul_bound(qy as int, qy as int, 20_000_000_000_000,
            20_000_000_000_000);
    }
    let zd2: i128 = mul_i128(zoom.den as i128, zoom.den as i128);
    let rr: i128 = 100i128 * zd2;
    mul_i128(qx, qx) + mul_i128(qy, qy) <= rr
}

/// The margin the selection decoration adds at the current zoom:
/// `SELECTOR_BOUNDS_MARGIN / zoom`, rounded down.
pub open spec fn decoration_margin_spec(zoom: Frac) -> int {
    SELECTOR_BOUNDS_MARGIN as int * zoom.den as int / zoom.num as int
}

pub fn decoration_margin(zoom: Frac) -> (r: i64)
    requires
        zoom.wf(),
        zoom.num >= 1,
    ensures
        r as int == decoration_margin_spec(zoom),
        0 <= r <= 80_000_000,
{
    proof {
        crate::geom::lemma_mul_bound(SELECTOR_BOUNDS_MARGIN as int, zoom.den as int, 10,
            8_000_000);
    }
    let num: u128 = (SELECTOR_BOUNDS_MARGIN as u128) * (zoom.den as u128);
    let q: u128 = num / (zoom.num as u128);
    proof {
        assert(num as int == SELECTOR_BOUNDS_MARGIN as int * zoom.den as int);
        vstd::arithmetic::div_mod::lemma_div_is_ordered_by_denominator(
            num as int, 1, zoom.num as int);
        vstd::arithmetic::div_mod::lemma_div_basics(num as int);
        vstd::arithmetic::div_mod::lemma_div_pos_is_pos(num as int, zoom.num as int);
    }
    q as i64
}

/// The selector's on-screen footprint: during a selection, the box spanned
/// by the path; with a selection, the bounds grown by the decoration margin.
pub open spec fn bounds_on_doc_spec(state_bounds: Option<Aabb>, zoom: Frac) -> Option<Aabb> {
    match state_bounds {
        None => None,
        Some(b) => Some(b.loosened_spec(decoration_margin_spec(zoom) as i64)),
    }
}

impl Selector {
    /// The selector's drawn footprint on the document, if any.
    pub fn bounds_on_doc(&self, engine: &EngineView) -> (r: Option<Aabb>)
        requires
            self.wf(engine.store),
            engine.wf(),
        ensures
            r == bounds_on_doc_spec(self.raw_bounds_spec(), engine.camera.zoom),
            r matches Some(b) ==> b.wf(),
    {
        let m: i64 = decoration_margin(engine.camera.total_zoom());
        match &self.state {
            SelectorState::Idle => None,
            SelectorState::Selecting { path } => {
                let n: usize = path.len();
                if n == 0 {
                    return None;
                }
                let mut acc: Aabb = Aabb::new_positive(path[0].pos, path[0].pos);
                let mut i: usize = 1;
                while i < n
                    invariant
                        1 <= i <= n,
                        n == path@.len(),
                        forall|k: int| 0 <= k < path@.len() ==> (#[trigger] path@[k]).wf(),
                        acc == path_box(path@, i as int),
                        acc.wf(),
                    decreases n - i,
                {
                    let b: Aabb = Aabb::new_positive(path[i].pos, path[i].pos);
                    acc = acc.merged(&b);
                    i = i + 1;
                }
                Some(acc.loosened(m))
            },
            SelectorState::ModifySelection { selection_bounds, .. } => {
                Some(selection_bounds.loosened(m))
            },
        }
    }

    /// The footprint before the decoration margin is added.
    pub open spec fn raw_bounds_spec(self) -> Option<Aabb> {
        match self.state {
            SelectorState::Idle => None,
            SelectorState::Selecting { path } => if path@.len() == 0 {
                None
            } else {
                Some(path_box(path@, path@.len() as int))
            },
            SelectorState::ModifySelection { selection_bounds, .. } => Some(selection_bounds),
        }
    }
}

/// The box spanned by the first `n` path points.
pub open spec fn path_box(path: Seq<Element>, n: int) -> Aabb
    recommends
        1 <= n <= path.len(),
    decreases n,
{
    if n <= 1 {
        Aabb::new_positive_spec(path[0].pos, path[0].pos)
    } else {
        path_box(path, n - 1).merged_spec(Aabb::new_positive_spec(path[n - 1].pos, path[n - 1].pos))
    }
}

/// Extends the selection path with a new pointer sample. Polygon, single
/// and intersecting-path styles accumulate every point; the rectangle style
/// keeps only the first and the latest point.
pub fn add_to_select_path(style: SelectorStyle, path: &mut Vec<Element>, element: Element)
    requires
        forall|i: int| 0 <= i < old(path)@.len() ==> (#[trigger] old(path)@[i]).wf(),
        element.wf(),
    ensures
        style == SelectorStyle::Rectangle && old(path)@.len() >= 2 ==> final(path)@ == old(
            path,
        )@.update(old(path)@.len() - 1, element),
        !(style == SelectorStyle::Rectangle && old(path)@.len() >= 2) ==> final(path)@ == old(
            path,
        )@.push(element),
        forall|i: int| 0 <= i < final(path)@.len() ==> (#[trigger] final(path)@[i]).wf(),
{
    let n: usize = path.len();
    if style == SelectorStyle::Rectangle && n >= 2 {
        path.set(n - 1, element);
    } else {
        path.push(element);
    }
}

/// The positions of the path's samples.
pub fn path_positions(path: &Vec<Element>) -> (r: Vec<Vector2>)
    ensures
        r@.len() == path@.len(),
        forall|i: int| 0 <= i < path@.len() ==> #[trigger] r@[i] == path@[i].pos,
{
    let n: usize = path.len();
    let mut r: Vec<Vector2> = Vec::new();
    let mut i: usize = 0;
    while i < n
        invariant
            i <= n,
            n == path@.len(),
            r@.len() == i,
            forall|k: int| 0 <= k < i ==> #[trigger] r@[k] == path@[k].pos,
        decreases n - i,
    {
        let p: Vector2 = path[i].pos;
        r.push(p);
        i = i + 1;
    }
    r
}

/// Cancels the selection: deselects the given strokes, refits the document,
/// queues a re-render and reports the store as modified. No history record
/// is made and nothing is trashed.
pub fn cancel_selection(selection: &Vec<StrokeKey>, engine: &mut EngineView) -> (r: WidgetFlags)
    requires
        old(engine).wf(),
        old(engine).store.keys_valid(selection@),
    ensures
        final(engine).store.strokes@.len() == old(engine).store.strokes@.len(),
        forall|k: int|
            0 <= k < old(engine).store.n() ==> #[trigger] final(engine).store.strokes@[k] == if
                selection@.contains(k as StrokeKey) {
                crate::store::Stroke { selected: false, ..old(engine).store.strokes@[k] }
            } else {
                old(engine).store.strokes@[k]
            },
        final(engine).store.history_records == old(engine).store.history_records,
        final(engine).camera == old(engine).camera,
        final(engine).selector_config == old(engine).selector_config,
        r.store_modified,
        final(engine).wf(),
{
    let mut flags: WidgetFlags = WidgetFlags::none();
    engine.store.set_selected_keys(selection, false);
    engine.store.update_geometry_for_strokes(selection);
    let f2: WidgetFlags = engine.document.resize_autoexpand(&engine.store, &engine.camera);
    flags.merge(f2);
    engine.store.regenerate_rendering_in_viewport_threaded(engine.camera.viewport);
    flags.store_modified = true;
    flags
}

} // verus!
