//! Laws that tie the selector's geometry together, proved once and for all:
//! the resize round trip and the aspect-lock ratio preservation.

use vstd::prelude::*;
use crate::engine::EngineView;
use crate::geom::{Aabb, Vector2};
use crate::penevent::ModifierKey;
use crate::penevents::{mirror_offset, resize_eff_offset, resize_target_bounds, resize_target_extent};
use crate::selector::{resize_pivot_pos, ResizeCorner};

verus! {

/// For every resize corner: once the pointer stands where the gesture
/// started (so the effective offset is zero), the selection bounds are the
/// gesture's start bounds again, exactly.
pub proof fn lemma_resize_returns_to_start(corner: ResizeCorner, start_bounds: Aabb)
    requires
        start_bounds.wf(),
        start_bounds.width() >= 1,
        start_bounds.height() >= 1,
    ensures
        resize_target_bounds(
            corner,
            resize_pivot_pos(corner, start_bounds),
            resize_target_extent(start_bounds.width(), 0),
            resize_target_extent(start_bounds.height(), 0),
        ) == start_bounds,
{
}

/// A pointer that has not moved from its press position produces a zero
/// effective resize offset, whenever the grid step is one and the aspect
/// ratio is not locked.
pub proof fn lemma_resize_offset_at_start_is_zero(
    engine: EngineView,
    mods: Seq<ModifierKey>,
    corner: ResizeCorner,
    start_bounds: Aabb,
    start_pos: Vector2,
)
    requires
        engine.document.snap_grid == 1,
        !engine.selector_config.resize_lock_aspectratio,
        !mods.contains(ModifierKey::KeyboardCtrl),
        start_bounds.wf(),
        start_pos.wf(),
    ensures
        resize_eff_offset(engine, mods, corner, start_bounds, start_pos, start_pos) == (Vector2 {
            x: 0,
            y: 0,
        }),
{
    let anchor = crate::selector::resize_corner_pos(corner, start_bounds);
    let raw = start_pos.minus_spec(start_pos);
    assert(raw == Vector2 { x: 0, y: 0 });
    let moved = anchor.plus_spec(raw);
    assert(moved == anchor);
    vstd::arithmetic::div_mod::lemma_div_basics(anchor.x as int);
    vstd::arithmetic::div_mod::lemma_div_basics(anchor.y as int);
    let snapped = crate::engine::snap_pt_spec(moved, 1);
    assert(snapped == anchor);
    assert(snapped.minus_spec(anchor) == Vector2 { x: 0, y: 0 });
    assert(mirror_offset(corner, Vector2 { x: 0, y: 0 }) == Vector2 { x: 0, y: 0 });
}

/// Away from the canvas edge a resize event's new extents are exactly the
/// floored targets, so each stays at least one unit; only where the grown
/// corner would leave the canvas does the box saturate at the edge.
pub proof fn lemma_resize_extent_floor(corner: ResizeCorner, pivot: Vector2, tx: i64, ty: i64)
    requires
        pivot.wf(),
        1 <= tx <= 4_000_000,
        1 <= ty <= 4_000_000,
        match corner {
            ResizeCorner::BottomRight => pivot.x as int + tx as int <= 1_000_000 && pivot.y as int
                + ty as int <= 1_000_000,
            ResizeCorner::TopLeft => pivot.x as int - tx as int >= -1_000_000 && pivot.y as int
                - ty as int >= -1_000_000,
            ResizeCorner::TopRight => pivot.x as int + tx as int <= 1_000_000 && pivot.y as int
                - ty as int >= -1_000_000,
            ResizeCorner::BottomLeft => pivot.x as int - tx as int >= -1_000_000 && pivot.y as int
                + ty as int <= 1_000_000,
        },
    ensures
        resize_target_bounds(corner, pivot, tx, ty).width() == tx as int,
        resize_target_bounds(corner, pivot, tx, ty).height() == ty as int,
        resize_target_bounds(corner, pivot, tx, ty).width() >= 1,
        resize_target_bounds(corner, pivot, tx, ty).height() >= 1,
{
}

/// Aspect-locked resizing preserves the start bounds' width-to-height ratio
/// exactly whenever the locked offset divides evenly (in particular for every
/// uniform blow-up of a square); rounding can otherwise disturb the stored
/// integer extents by less than one unit per axis.
pub proof fn lemma_aspect_lock_preserves_ratio(start_bounds: Aabb, o: Vector2)
    requires
        start_bounds.wf(),
        o.wf(),
        start_bounds.width() + start_bounds.height() >= 1,
        (start_bounds.width() * (o.x as int + o.y as int)) % (start_bounds.width()
            + start_bounds.height()) == 0,
        (start_bounds.height() * (o.x as int + o.y as int)) % (start_bounds.width()
            + start_bounds.height()) == 0,
    ensures
        ({
            let a = crate::penevents::aspect_locked_offset(start_bounds, o);
            (start_bounds.width() + a.x as int) * start_bounds.height() == (start_bounds.height()
                + a.y as int) * start_bounds.width()
        }),
{
    let w = start_bounds.width();
    let h = start_bounds.height();
    let sm2 = w + h;
    let om2 = o.x as int + o.y as int;
    let a = crate::penevents::aspect_locked_offset(start_bounds, o);
    crate::geom::lemma_mul_bound(w, om2, 2_000_000, 2_000_000);
    crate::geom::lemma_mul_bound(h, om2, 2_000_000, 2_000_000);
    crate::geom::lemma_div_trunc_bound(w * om2, sm2);
    crate::geom::lemma_div_trunc_bound(h * om2, sm2);
    lemma_exact_div(w * om2, sm2);
    lemma_exact_div(h * om2, sm2);
    assert(a.x as int == crate::geom::div_trunc(w * om2, sm2));
    assert(a.y as int == crate::geom::div_trunc(h * om2, sm2));
    assert((a.x as int) * sm2 == w * om2 && (a.y as int) * sm2 == h * om2) by (nonlinear_arith)
        requires
            a.x as int == crate::geom::div_trunc(w * om2, sm2),
            a.y as int == crate::geom::div_trunc(h * om2, sm2),
            crate::geom::div_trunc(w * om2, sm2) * sm2 == w * om2,
            crate::geom::div_trunc(h * om2, sm2) * sm2 == h * om2,
    ;
    assert((w + a.x as int) * h == (h + a.y as int) * w) by (nonlinear_arith)
        requires
            (a.x as int) * sm2 == w * om2,
            (a.y as int) * sm2 == h * om2,
            sm2 == w + h,
            sm2 >= 1,
    ;
}

/// Truncating division is exact on exact multiples.
#[verifier::rlimit(60)]
proof fn lemma_exact_div(a: int, b: int)
    requires
        b >= 1,
        a % b == 0,
    ensures
        crate::geom::div_trunc(a, b) * b == a,
{
    vstd::arithmetic::div_mod::lemma_fundamental_div_mod(a, b);
    if a >= 0 {
        assert(crate::geom::div_trunc(a, b) == a / b);
        assert((a / b) * b == a) by (nonlinear_arith)
            requires
                a == b * (a / b) + a % b,
                a % b == 0,
        ;
    } else {
        let q = a / b;
        assert(a == b * q);
        assert(-a == b * (-q) + 0) by (nonlinear_arith)
            requires
                a == b * q,
        ;
        vstd::arithmetic::div_mod::lemma_fundamental_div_mod_converse(-a, b, -q, 0);
        assert((-a) / b == -q);
        assert(crate::geom::div_trunc(a, b) == q);
        assert(q * b == a) by (nonlinear_arith)
            requires
                a == b * q,
        ;
    }
}

} // verus!
