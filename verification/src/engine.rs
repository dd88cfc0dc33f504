//! The collaborators the selector drives: the camera, the document, and the
//! aggregate view handed into each event handler.

use vstd::prelude::*;
use crate::geom::{snap_coord, snap_coord_spec, Aabb, Frac, Vector2};
use crate::penevent::WidgetFlags;
use crate::store::StrokeStore;

verus! {

/// Which rule finalizes a selection path.
#[derive(Clone, Copy, Debug, PartialEq, Eq, Structural)]
pub enum SelectorStyle {
    Polygon,
    Rectangle,
    Single,
    IntersectingPath,
}

/// The selector tool's configuration.
#[derive(Clone, Copy, Debug, PartialEq, Eq, Structural)]
pub struct SelectorConfig {
    pub style: SelectorStyle,
    pub resize_lock_aspectratio: bool,
}

/// The camera: its viewport on the document and its zoom ratio.
#[derive(Clone, Copy, Debug, PartialEq, Eq, Structural)]
pub struct Camera {
    pub viewport: Aabb,
    pub zoom: Frac,
}

/// The offset that moves the viewport just far enough to contain `pos`.
pub open spec fn nudge_offset_spec(vp: Aabb, pos: Vector2) -> Vector2 {
    Vector2 {
        x: if pos.x < vp.mins.x {
            (pos.x - vp.mins.x) as i64
        } else if pos.x > vp.maxs.x {
            (pos.x - vp.maxs.x) as i64
        } else {
            0
        },
        y: if pos.y < vp.mins.y {
            (pos.y - vp.mins.y) as i64
        } else if pos.y > vp.maxs.y {
            (pos.y - vp.maxs.y) as i64
        } else {
            0
        },
    }
}

impl Camera {
    pub open spec fn wf(self) -> bool {
        self.viewport.wf() && self.zoom.wf() && self.zoom.num >= 1
    }

    pub fn viewport(&self) -> (r: Aabb)
        ensures
            r == self.viewport,
    {
        self.viewport
    }

    pub fn total_zoom(&self) -> (r: Frac)
        ensures
            r == self.zoom,
    {
        self.zoom
    }

    /// Follows the pointer: translates the viewport by the least offset that
    /// brings `pos` inside it; reports a redraw when it moved.
    pub fn nudge_w_pos(&mut self, pos: Vector2, document: &Document) -> (r: WidgetFlags)
        requires
            old(self).wf(),
            pos.wf(),
        ensures
            final(self).zoom == old(self).zoom,
            final(self).viewport == old(self).viewport.translate_spec(
                nudge_offset_spec(old(self).viewport, pos),
            ),
            r == (WidgetFlags {
                redraw: nudge_offset_spec(old(self).viewport, pos) != (Vector2 { x: 0, y: 0 }),
                ..WidgetFlags::none_spec()
            }),
            final(self).wf(),
    {
        let _ = document;
        let ox: i64 = if pos.x < self.viewport.mins.x {
            pos.x - self.viewport.mins.x
        } else if pos.x > self.viewport.maxs.x {
            pos.x - self.viewport.maxs.x
        } else {
            0
        };
        let oy: i64 = if pos.y < self.viewport.mins.y {
            pos.y - self.viewport.mins.y
        } else if pos.y > self.viewport.maxs.y {
            pos.y - self.viewport.maxs.y
        } else {
            0
        };
        let offset = Vector2 { x: ox, y: oy };
        let moved: bool = ox != 0 || oy != 0;
        self.viewport = self.viewport.translate(offset);
        WidgetFlags { redraw: moved, ..WidgetFlags::none() }
    }
}

/// The document: its canvas bounds and its snap grid step.
#[derive(Clone, Copy, Debug, PartialEq, Eq, Structural)]
pub struct Document {
    pub bounds: Aabb,
    pub snap_grid: i64,
}

/// A position snapped componentwise to the document grid.
pub open spec fn snap_pt_spec(p: Vector2, grid: int) -> Vector2 {
    Vector2 { x: snap_coord_spec(p.x as int, grid), y: snap_coord_spec(p.y as int, grid) }
}

impl Document {
    pub open spec fn wf(self) -> bool {
        self.bounds.wf() && 1 <= self.snap_grid <= 1000
    }

    /// Snaps a position to the nearest grid point.
    pub fn snap_position(&self, p: Vector2) -> (r: Vector2)
        requires
            self.wf(),
            p.wf(),
        ensures
            r == snap_pt_spec(p, self.snap_grid as int),
            r.wf(),
    {
        Vector2 {
            x: snap_coord(p.x, self.snap_grid),
            y: snap_coord(p.y, self.snap_grid),
        }
    }

    /// Grows the document bounds to cover the camera's viewport.
    pub fn expand_autoexpand(&mut self, camera: &Camera) -> (r: WidgetFlags)
        requires
            old(self).wf(),
            camera.wf(),
        ensures
            final(self).bounds == old(self).bounds.merged_spec(camera.viewport),
            final(self).snap_grid == old(self).snap_grid,
            r == (WidgetFlags {
                resize: final(self).bounds != old(self).bounds,
                ..WidgetFlags::none_spec()
            }),
            final(self).wf(),
    {
        let new_bounds: Aabb = self.bounds.merged(&camera.viewport);
        let grew: bool = !(new_bounds == self.bounds);
        self.bounds = new_bounds;
        WidgetFlags { resize: grew, ..WidgetFlags::none() }
    }

    /// The viewport merged with every untrashed stroke's bounds.
    pub open spec fn content_bounds(store: StrokeStore, acc: Aabb, n: int) -> Aabb
        decreases n,
    {
        if n <= 0 {
            acc
        } else {
            let prev = Document::content_bounds(store, acc, n - 1);
            if !store.strokes@[n - 1].trashed {
                prev.merged_spec(store.stroke_bounds(n - 1))
            } else {
                prev
            }
        }
    }

    /// Refits the document bounds to the content and the viewport.
    pub fn resize_autoexpand(&mut self, store: &StrokeStore, camera: &Camera) -> (r: WidgetFlags)
        requires
            old(self).wf(),
            store.wf(),
            camera.wf(),
        ensures
            final(self).bounds == Document::content_bounds(*store, camera.viewport, store.n()),
            final(self).snap_grid == old(self).snap_grid,
            r == (WidgetFlags {
                resize: final(self).bounds != old(self).bounds,
                ..WidgetFlags::none_spec()
            }),
            final(self).wf(),
    {
        let n: usize = store.strokes.len();
        let mut acc: Aabb = camera.viewport;
        let mut i: usize = 0;
        while i < n
            invariant
                i <= n,
                n == store.strokes@.len(),
                store.wf(),
                camera.wf(),
                acc == Document::content_bounds(*store, camera.viewport, i as int),
                acc.wf(),
            decreases n - i,
        {
            if !store.strokes[i].trashed {
                let b: Aabb = store.strokes[i].shape.bounds();
                acc = acc.merged(&b);
            }
            i = i + 1;
        }
        let grew: bool = !(acc == self.bounds);
        self.bounds = acc;
        WidgetFlags { resize: grew, ..WidgetFlags::none() }
    }
}

/// Everything an event handler may read and command: the store, the camera,
/// the document and the tool configuration, bundled as one mutable view.
#[derive(Debug)]
pub struct EngineView {
    pub store: StrokeStore,
    pub camera: Camera,
    pub document: Document,
    pub selector_config: SelectorConfig,
}

impl EngineView {
    pub open spec fn wf(self) -> bool {
        self.store.wf() && self.camera.wf() && self.document.wf()
    }
}

} // verus!
