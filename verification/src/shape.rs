//! The closed set of shape variants a stroke can wrap, with the transform
//! and bounding capabilities the store relies on: translate, rotate and
//! scale, plus bounds, coarse hitboxes, and the outline's defining points.

use vstd::prelude::*;
use crate::geom::{
    clamp_coord_spec, dir_in_range, rotate_pt, rotate_pt_spec, scale_len, scale_len_spec,
    scale_pt, scale_pt_spec, Aabb, Scale2, Vector2, COORD_LIMIT,
};

verus! {

/// A straight segment.
#[derive(Clone, Copy, Debug, PartialEq, Eq, Structural)]
pub struct Line {
    pub start: Vector2,
    pub end: Vector2,
}

/// A segment drawn with an arrow tip.
#[derive(Clone, Copy, Debug, PartialEq, Eq, Structural)]
pub struct Arrow {
    pub start: Vector2,
    pub tip: Vector2,
}

/// An axis-aligned rectangle.
#[derive(Clone, Copy, Debug, PartialEq, Eq, Structural)]
pub struct Rectangle {
    pub bounds: Aabb,
}

/// An axis-aligned ellipse: center and nonnegative semi-axes.
#[derive(Clone, Copy, Debug, PartialEq, Eq, Structural)]
pub struct Ellipse {
    pub center: Vector2,
    pub radii: Vector2,
}

/// A quadratic bezier curve.
#[derive(Clone, Copy, Debug, PartialEq, Eq, Structural)]
pub struct QuadraticBezier {
    pub start: Vector2,
    pub cp: Vector2,
    pub end: Vector2,
}

/// A cubic bezier curve.
#[derive(Clone, Copy, Debug, PartialEq, Eq, Structural)]
pub struct CubicBezier {
    pub start: Vector2,
    pub cp1: Vector2,
    pub cp2: Vector2,
    pub end: Vector2,
}

/// An open chain of segments.
#[derive(Clone, Debug)]
pub struct Polyline {
    pub start: Vector2,
    pub path: Vec<Vector2>,
}

/// A closed chain of segments.
#[derive(Clone, Debug)]
pub struct Polygon {
    pub start: Vector2,
    pub path: Vec<Vector2>,
}

/// Shape, storing shape variants. Exactly one variant is active at a time.
#[derive(Clone, Debug)]
pub enum Shape {
    /// A line shape.
    Line(Line),
    /// An arrow shape.
    Arrow(Arrow),
    /// A rectangle shape.
    Rectangle(Rectangle),
    /// An ellipse shape.
    Ellipse(Ellipse),
    /// A quadratic bezier curve shape.
    QuadraticBezier(QuadraticBezier),
    /// A cubic bezier curve shape.
    CubicBezier(CubicBezier),
    /// A polyline shape.
    Polyline(Polyline),
    /// A polygon shape.
    Polygon(Polygon),
}

/// The axis-aligned box of an ellipse, clamped at the canvas edge.
pub open spec fn ellipse_box(center: Vector2, radii: Vector2) -> Aabb {
    Aabb {
        mins: Vector2 {
            x: clamp_coord_spec(center.x as int - radii.x as int),
            y: clamp_coord_spec(center.y as int - radii.y as int),
        },
        maxs: Vector2 {
            x: clamp_coord_spec(center.x as int + radii.x as int),
            y: clamp_coord_spec(center.y as int + radii.y as int),
        },
    }
}

/// One box per chain segment; a chain without segments collapses to its
/// start point.
pub open spec fn chain_boxes(start: Vector2, path: Seq<Vector2>) -> Seq<Aabb> {
    if path.len() == 0 {
        seq![Aabb::new_positive_spec(start, start)]
    } else {
        Seq::new(
            path.len(),
            |i: int|
                Aabb::new_positive_spec(
                    if i == 0 {
                        start
                    } else {
                        path[i - 1]
                    },
                    path[i],
                ),
        )
    }
}

/// The merge of the first `n` boxes.
pub open spec fn merge_boxes(bs: Seq<Aabb>, n: int) -> Aabb
    recommends
        1 <= n <= bs.len(),
    decreases n,
{
    if n <= 1 {
        bs[0]
    } else {
        merge_boxes(bs, n - 1).merged_spec(bs[n - 1])
    }
}

impl Shape {
    /// Every defining point lies on the canvas; a rectangle is ordered and
    /// ellipse radii are canvas-sized and nonnegative.
    pub open spec fn wf(self) -> bool {
        match self {
            Shape::Line(s) => s.start.wf() && s.end.wf(),
            Shape::Arrow(s) => s.start.wf() && s.tip.wf(),
            Shape::Rectangle(s) => s.bounds.wf(),
            Shape::Ellipse(s) => s.center.wf() && 0 <= s.radii.x <= COORD_LIMIT && 0 <= s.radii.y
                <= COORD_LIMIT,
            Shape::QuadraticBezier(s) => s.start.wf() && s.cp.wf() && s.end.wf(),
            Shape::CubicBezier(s) => s.start.wf() && s.cp1.wf() && s.cp2.wf() && s.end.wf(),
            Shape::Polyline(s) => s.start.wf() && forall|i: int|
                0 <= i < s.path@.len() ==> (#[trigger] s.path@[i]).wf(),
            Shape::Polygon(s) => s.start.wf() && forall|i: int|
                0 <= i < s.path@.len() ==> (#[trigger] s.path@[i]).wf(),
        }
    }

    pub open spec fn default_spec() -> Shape {
        Shape::Line(Line { start: Vector2 { x: 0, y: 0 }, end: Vector2 { x: 0, y: 0 } })
    }

    /// `post` is `pre` with every defining point sent through `pt_map` and
    /// every ellipse radius through `len_map`; a rectangle keeps the box
    /// spanned by its mapped corners.
    pub open spec fn transformed_by(
        pre: Shape,
        post: Shape,
        pt_map: spec_fn(Vector2) -> Vector2,
        len_map: spec_fn(i64) -> i64,
    ) -> bool {
        match (pre, post) {
            (Shape::Line(a), Shape::Line(b)) => b.start == pt_map(a.start) && b.end == pt_map(
                a.end),
            (Shape::Arrow(a), Shape::Arrow(b)) => b.start == pt_map(a.start) && b.tip == pt_map(
                a.tip),
            (Shape::Rectangle(a), Shape::Rectangle(b)) => b.bounds == Aabb::new_positive_spec(
                pt_map(a.bounds.mins),
                pt_map(a.bounds.maxs),
            ),
            (Shape::Ellipse(a), Shape::Ellipse(b)) => b.center == pt_map(a.center) && b.radii.x
                == len_map(a.radii.x) && b.radii.y == len_map(a.radii.y),
            (Shape::QuadraticBezier(a), Shape::QuadraticBezier(b)) => b.start == pt_map(a.start)
                && b.cp == pt_map(a.cp) && b.end == pt_map(a.end),
            (Shape::CubicBezier(a), Shape::CubicBezier(b)) => b.start == pt_map(a.start) && b.cp1
                == pt_map(a.cp1) && b.cp2 == pt_map(a.cp2) && b.end == pt_map(a.end),
            (Shape::Polyline(a), Shape::Polyline(b)) => b.start == pt_map(a.start)
                && b.path@.len() == a.path@.len() && forall|i: int|
                0 <= i < a.path@.len() ==> #[trigger] b.path@[i] == pt_map(a.path@[i]),
            (Shape::Polygon(a), Shape::Polygon(b)) => b.start == pt_map(a.start) && b.path@.len()
                == a.path@.len() && forall|i: int|
                0 <= i < a.path@.len() ==> #[trigger] b.path@[i] == pt_map(a.path@[i]),
            _ => false,
        }
    }

    /// The coarse hit regions: per-segment boxes for chains, a single box
    /// for every other variant.
    pub open spec fn hitboxes_spec(self) -> Seq<Aabb> {
        match self {
            Shape::Line(s) => seq![Aabb::new_positive_spec(s.start, s.end)],
            Shape::Arrow(s) => seq![Aabb::new_positive_spec(s.start, s.tip)],
            Shape::Rectangle(s) => seq![s.bounds],
            Shape::Ellipse(s) => seq![ellipse_box(s.center, s.radii)],
            Shape::QuadraticBezier(s) => seq![
                Aabb::new_positive_spec(s.start, s.cp).merged_spec(
                    Aabb::new_positive_spec(s.end, s.end),
                ),
            ],
            Shape::CubicBezier(s) => seq![
                Aabb::new_positive_spec(s.start, s.cp1).merged_spec(
                    Aabb::new_positive_spec(s.cp2, s.end),
                ),
            ],
            Shape::Polyline(s) => chain_boxes(s.start, s.path@),
            Shape::Polygon(s) => chain_boxes(s.start, s.path@),
        }
    }

    /// The merge of all hit regions.
    pub open spec fn bounds_spec(self) -> Aabb {
        merge_boxes(self.hitboxes_spec(), self.hitboxes_spec().len() as int)
    }
}

impl Default for Shape {
    /// A zero-length line at the origin.
    fn default() -> (r: Shape)
        ensures
            r == Shape::default_spec(),
            r.wf(),
    {
        Shape::Line(Line { start: Vector2 { x: 0, y: 0 }, end: Vector2 { x: 0, y: 0 } })
    }
}

/// Maps every point of a vector in place.
fn translate_pts(v: &mut Vec<Vector2>, offset: Vector2)
    requires
        forall|i: int| 0 <= i < old(v)@.len() ==> (#[trigger] old(v)@[i]).wf(),
        offset.wf(),
    ensures
        final(v)@.len() == old(v)@.len(),
        forall|i: int| 0 <= i < old(v)@.len() ==> #[trigger] final(v)@[i] == old(v)@[i].plus_spec(
            offset),
        forall|i: int| 0 <= i < final(v)@.len() ==> (#[trigger] final(v)@[i]).wf(),
{
    let n: usize = v.len();
    let mut i: usize = 0;
    while i < n
        invariant
            i <= n,
            n == v@.len(),
            v@.len() == old(v)@.len(),
            offset.wf(),
            forall|k: int| i <= k < n ==> v@[k] == old(v)@[k],
            forall|k: int| 0 <= k < old(v)@.len() ==> (#[trigger] old(v)@[k]).wf(),
            forall|k: int| 0 <= k < i ==> #[trigger] v@[k] == old(v)@[k].plus_spec(offset),
            forall|k: int| 0 <= k < i ==> (#[trigger] v@[k]).wf(),
        decreases n - i,
    {
        let p: Vector2 = v[i];
        let q: Vector2 = p.plus(offset);
        v.set(i, q);
        i = i + 1;
    }
}

/// Rotates every point of a vector in place.
fn rotate_pts(v: &mut Vec<Vector2>, center: Vector2, from_dir: Vector2, to_dir: Vector2)
    requires
        forall|i: int| 0 <= i < old(v)@.len() ==> (#[trigger] old(v)@[i]).wf(),
        center.wf(),
        dir_in_range(from_dir),
        dir_in_range(to_dir),
    ensures
        final(v)@.len() == old(v)@.len(),
        forall|i: int| 0 <= i < old(v)@.len() ==> #[trigger] final(v)@[i] == rotate_pt_spec(
            old(v)@[i], center, from_dir, to_dir),
        forall|i: int| 0 <= i < final(v)@.len() ==> (#[trigger] final(v)@[i]).wf(),
{
    let n: usize = v.len();
    let mut i: usize = 0;
    while i < n
        invariant
            i <= n,
            n == v@.len(),
            v@.len() == old(v)@.len(),
            center.wf(),
            dir_in_range(from_dir),
            dir_in_range(to_dir),
            forall|k: int| i <= k < n ==> v@[k] == old(v)@[k],
            forall|k: int| 0 <= k < old(v)@.len() ==> (#[trigger] old(v)@[k]).wf(),
            forall|k: int| 0 <= k < i ==> #[trigger] v@[k] == rotate_pt_spec(
                old(v)@[k], center, from_dir, to_dir),
            forall|k: int| 0 <= k < i ==> (#[trigger] v@[k]).wf(),
        decreases n - i,
    {
        let p: Vector2 = v[i];
        let q: Vector2 = rotate_pt(p, center, from_dir, to_dir);
        v.set(i, q);
        i = i + 1;
    }
}

/// Scales every point of a vector in place, about a pivot.
fn scale_pts(v: &mut Vec<Vector2>, pivot: Vector2, sc: Scale2)
    requires
        forall|i: int| 0 <= i < old(v)@.len() ==> (#[trigger] old(v)@[i]).wf(),
        pivot.wf(),
        sc.wf(),
    ensures
        final(v)@.len() == old(v)@.len(),
        forall|i: int| 0 <= i < old(v)@.len() ==> #[trigger] final(v)@[i] == scale_pt_spec(
            old(v)@[i], pivot, sc),
        forall|i: int| 0 <= i < final(v)@.len() ==> (#[trigger] final(v)@[i]).wf(),
{
    let n: usize = v.len();
    let mut i: usize = 0;
    while i < n
        invariant
            i <= n,
            n == v@.len(),
            v@.len() == old(v)@.len(),
            pivot.wf(),
            sc.wf(),
            forall|k: int| i <= k < n ==> v@[k] == old(v)@[k],
            forall|k: int| 0 <= k < old(v)@.len() ==> (#[trigger] old(v)@[k]).wf(),
            forall|k: int| 0 <= k < i ==> #[trigger] v@[k] == scale_pt_spec(old(v)@[k], pivot, sc),
            forall|k: int| 0 <= k < i ==> (#[trigger] v@[k]).wf(),
        decreases n - i,
    {
        let p: Vector2 = v[i];
        let q: Vector2 = scale_pt(p, pivot, sc);
        v.set(i, q);
        i = i + 1;
    }
}

impl Shape {
    /// Moves the shape by `offset`, clamping at the canvas edge.
    pub fn translate(&mut self, offset: Vector2)
        requires
            old(self).wf(),
            offset.wf(),
        ensures
            Shape::transformed_by(
                *old(self),
                *final(self),
                |p: Vector2| p.plus_spec(offset),
                |l: i64| l,
            ),
            final(self).wf(),
    {
        match self {
            Shape::Line(s) => {
                s.start = s.start.plus(offset);
                s.end = s.end.plus(offset);
            },
            Shape::Arrow(s) => {
                s.start = s.start.plus(offset);
                s.tip = s.tip.plus(offset);
            },
            Shape::Rectangle(s) => {
                s.bounds = Aabb::new_positive(
                    s.bounds.mins.plus(offset),
                    s.bounds.maxs.plus(offset),
                );
            },
            Shape::Ellipse(s) => {
                s.center = s.center.plus(offset);
            },
            Shape::QuadraticBezier(s) => {
                s.start = s.start.plus(offset);
                s.cp = s.cp.plus(offset);
                s.end = s.end.plus(offset);
            },
            Shape::CubicBezier(s) => {
                s.start = s.start.plus(offset);
                s.cp1 = s.cp1.plus(offset);
                s.cp2 = s.cp2.plus(offset);
                s.end = s.end.plus(offset);
            },
            Shape::Polyline(s) => {
                s.start = s.start.plus(offset);
                translate_pts(&mut s.path, offset);
            },
            Shape::Polygon(s) => {
                s.start = s.start.plus(offset);
                translate_pts(&mut s.path, offset);
            },
        }
    }

    /// Turns the shape about `center` by the angle taking direction
    /// `from_dir` to direction `to_dir`; an ellipse turns about its center
    /// only, keeping its axes, and a rectangle keeps the box spanned by its
    /// turned corners.
    pub fn rotate(&mut self, center: Vector2, from_dir: Vector2, to_dir: Vector2)
        requires
            old(self).wf(),
            center.wf(),
            dir_in_range(from_dir),
            dir_in_range(to_dir),
        ensures
            Shape::transformed_by(
                *old(self),
                *final(self),
                |p: Vector2| rotate_pt_spec(p, center, from_dir, to_dir),
                |l: i64| l,
            ),
            final(self).wf(),
    {
        match self {
            Shape::Line(s) => {
                s.start = rotate_pt(s.start, center, from_dir, to_dir);
                s.end = rotate_pt(s.end, center, from_dir, to_dir);
            },
            Shape::Arrow(s) => {
                s.start = rotate_pt(s.start, center, from_dir, to_dir);
                s.tip = rotate_pt(s.tip, center, from_dir, to_dir);
            },
            Shape::Rectangle(s) => {
                s.bounds = Aabb::new_positive(
                    rotate_pt(s.bounds.mins, center, from_dir, to_dir),
                    rotate_pt(s.bounds.maxs, center, from_dir, to_dir),
                );
            },
            Shape::Ellipse(s) => {
                s.center = rotate_pt(s.center, center, from_dir, to_dir);
            },
            Shape::QuadraticBezier(s) => {
                s.start = rotate_pt(s.start, center, from_dir, to_dir);
                s.cp = rotate_pt(s.cp, center, from_dir, to_dir);
                s.end = rotate_pt(s.end, center, from_dir, to_dir);
            },
            Shape::CubicBezier(s) => {
                s.start = rotate_pt(s.start, center, from_dir, to_dir);
                s.cp1 = rotate_pt(s.cp1, center, from_dir, to_dir);
                s.cp2 = rotate_pt(s.cp2, center, from_dir, to_dir);
                s.end = rotate_pt(s.end, center, from_dir, to_dir);
            },
            Shape::Polyline(s) => {
                s.start = rotate_pt(s.start, center, from_dir, to_dir);
                rotate_pts(&mut s.path, center, from_dir, to_dir);
            },
            Shape::Polygon(s) => {
                s.start = rotate_pt(s.start, center, from_dir, to_dir);
                rotate_pts(&mut s.path, center, from_dir, to_dir);
            },
        }
    }

    /// Scales the shape about `pivot` by per-axis factors; ellipse radii
    /// scale by the x-axis factor, keeping them nonnegative.
    pub fn scale(&mut self, scale_resize: Scale2, pivot: Vector2)
        requires
            old(self).wf(),
            scale_resize.wf(),
            pivot.wf(),
        ensures
            Shape::transformed_by(
                *old(self),
                *final(self),
                |p: Vector2| scale_pt_spec(p, pivot, scale_resize),
                |l: i64| scale_len_spec(l, scale_resize.x),
            ),
            final(self).wf(),
    {
        match self {
            Shape::Line(s) => {
                s.start = scale_pt(s.start, pivot, scale_resize);
                s.end = scale_pt(s.end, pivot, scale_resize);
            },
            Shape::Arrow(s) => {
                s.start = scale_pt(s.start, pivot, scale_resize);
                s.tip = scale_pt(s.tip, pivot, scale_resize);
            },
            Shape::Rectangle(s) => {
                s.bounds = Aabb::new_positive(
                    scale_pt(s.bounds.mins, pivot, scale_resize),
                    scale_pt(s.bounds.maxs, pivot, scale_resize),
                );
            },
            Shape::Ellipse(s) => {
                s.center = scale_pt(s.center, pivot, scale_resize);
                s.radii = Vector2 {
                    x: scale_len(s.radii.x, scale_resize.x),
                    y: scale_len(s.radii.y, scale_resize.x),
                };
            },
            Shape::QuadraticBezier(s) => {
                s.start = scale_pt(s.start, pivot, scale_resize);
                s.cp = scale_pt(s.cp, pivot, scale_resize);
                s.end = scale_pt(s.end, pivot, scale_resize);
            },
            Shape::CubicBezier(s) => {
                s.start = scale_pt(s.start, pivot, scale_resize);
                s.cp1 = scale_pt(s.cp1, pivot, scale_resize);
                s.cp2 = scale_pt(s.cp2, pivot, scale_resize);
                s.end = scale_pt(s.end, pivot, scale_resize);
            },
            Shape::Polyline(s) => {
                s.start = scale_pt(s.start, pivot, scale_resize);
                scale_pts(&mut s.path, pivot, scale_resize);
            },
            Shape::Polygon(s) => {
                s.start = scale_pt(s.start, pivot, scale_resize);
                scale_pts(&mut s.path, pivot, scale_resize);
            },
        }
    }

    /// The coarse hit regions, as listed by `hitboxes_spec`.
    pub fn hitboxes(&self) -> (r: Vec<Aabb>)
        requires
            self.wf(),
        ensures
            r@ == self.hitboxes_spec(),
            r@.len() >= 1,
            forall|i: int| 0 <= i < r@.len() ==> (#[trigger] r@[i]).wf(),
    {
        let mut r: Vec<Aabb> = Vec::new();
        match self {
            Shape::Line(s) => {
                r.push(Aabb::new_positive(s.start, s.end));
            },
            Shape::Arrow(s) => {
                r.push(Aabb::new_positive(s.start, s.tip));
            },
            Shape::Rectangle(s) => {
                r.push(s.bounds);
            },
            Shape::Ellipse(s) => {
                let mins = Vector2 {
                    x: crate::geom::clamp_coord(s.center.x as i128 - s.radii.x as i128),
                    y: crate::geom::clamp_coord(s.center.y as i128 - s.radii.y as i128),
                };
                let maxs = Vector2 {
                    x: crate::geom::clamp_coord(s.center.x as i128 + s.radii.x as i128),
                    y: crate::geom::clamp_coord(s.center.y as i128 + s.radii.y as i128),
                };
                r.push(Aabb { mins, maxs });
            },
            Shape::QuadraticBezier(s) => {
                let b1 = Aabb::new_positive(s.start, s.cp);
                let b2 = Aabb::new_positive(s.end, s.end);
                r.push(b1.merged(&b2));
            },
            Shape::CubicBezier(s) => {
                let b1 = Aabb::new_positive(s.start, s.cp1);
                let b2 = Aabb::new_positive(s.cp2, s.end);
                r.push(b1.merged(&b2));
            },
            Shape::Polyline(s) => {
                push_chain_boxes(&mut r, s.start, &s.path);
            },
            Shape::Polygon(s) => {
                push_chain_boxes(&mut r, s.start, &s.path);
            },
        }
        proof {
            assert(r@ =~= self.hitboxes_spec());
        }
        r
    }

    /// The merge of all hit regions.
    pub fn bounds(&self) -> (r: Aabb)
        requires
            self.wf(),
        ensures
            r == self.bounds_spec(),
            r.wf(),
    {
        let hb: Vec<Aabb> = self.hitboxes();
        let n: usize = hb.len();
        let mut acc: Aabb = hb[0];
        let mut i: usize = 1;
        while i < n
            invariant
                1 <= i <= n,
                n == hb@.len(),
                hb@ == self.hitboxes_spec(),
                forall|k: int| 0 <= k < hb@.len() ==> (#[trigger] hb@[k]).wf(),
                acc == merge_boxes(hb@, i as int),
                acc.wf(),
            decreases n - i,
        {
            acc = acc.merged(&hb[i]);
            i = i + 1;
        }
        acc
    }

    /// The defining points of the outline, in drawing order.
    pub fn outline_path(&self) -> (r: Vec<Vector2>)
        requires
            self.wf(),
        ensures
            r@ == self.outline_spec(),
            forall|i: int| 0 <= i < r@.len() ==> (#[trigger] r@[i]).wf(),
    {
        let mut r: Vec<Vector2> = Vec::new();
        match self {
            Shape::Line(s) => {
                r.push(s.start);
                r.push(s.end);
            },
            Shape::Arrow(s) => {
                r.push(s.start);
                r.push(s.tip);
            },
            Shape::Rectangle(s) => {
                r.push(s.bounds.mins);
                r.push(Vector2 { x: s.bounds.maxs.x, y: s.bounds.mins.y });
                r.push(s.bounds.maxs);
                r.push(Vector2 { x: s.bounds.mins.x, y: s.bounds.maxs.y });
            },
            Shape::Ellipse(s) => {
                r.push(s.center);
            },
            Shape::QuadraticBezier(s) => {
                r.push(s.start);
                r.push(s.cp);
                r.push(s.end);
            },
            Shape::CubicBezier(s) => {
                r.push(s.start);
                r.push(s.cp1);
                r.push(s.cp2);
                r.push(s.end);
            },
            Shape::Polyline(s) => {
                r.push(s.start);
                push_points(&mut r, &s.path);
            },
            Shape::Polygon(s) => {
                r.push(s.start);
                push_points(&mut r, &s.path);
            },
        }
        proof {
            assert(r@ =~= self.outline_spec());
        }
        r
    }

    /// The points `outline_path` hands out.
    pub open spec fn outline_spec(self) -> Seq<Vector2> {
        match self {
            Shape::Line(s) => seq![s.start, s.end],
            Shape::Arrow(s) => seq![s.start, s.tip],
            Shape::Rectangle(s) => seq![
                s.bounds.mins,
                Vector2 { x: s.bounds.maxs.x, y: s.bounds.mins.y },
                s.bounds.maxs,
                Vector2 { x: s.bounds.mins.x, y: s.bounds.maxs.y },
            ],
            Shape::Ellipse(s) => seq![s.center],
            Shape::QuadraticBezier(s) => seq![s.start, s.cp, s.end],
            Shape::CubicBezier(s) => seq![s.start, s.cp1, s.cp2, s.end],
            Shape::Polyline(s) => seq![s.start] + s.path@,
            Shape::Polygon(s) => seq![s.start] + s.path@,
        }
    }
}

/// Appends one box per chain segment.
fn push_chain_boxes(r: &mut Vec<Aabb>, start: Vector2, path: &Vec<Vector2>)
    requires
        old(r)@.len() == 0,
        start.wf(),
        forall|i: int| 0 <= i < path@.len() ==> (#[trigger] path@[i]).wf(),
    ensures
        final(r)@ == chain_boxes(start, path@),
        forall|i: int| 0 <= i < final(r)@.len() ==> (#[trigger] final(r)@[i]).wf(),
{
    let n: usize = path.len();
    if n == 0 {
        r.push(Aabb::new_positive(start, start));
        proof {
            assert(r@ =~= chain_boxes(start, path@));
        }
        return;
    }
    let mut prev: Vector2 = start;
    let mut i: usize = 0;
    while i < n
        invariant
            i <= n,
            n == path@.len(),
            n >= 1,
            start.wf(),
            forall|k: int| 0 <= k < path@.len() ==> (#[trigger] path@[k]).wf(),
            prev.wf(),
            prev == if i == 0 {
                start
            } else {
                path@[i - 1]
            },
            r@.len() == i,
            forall|k: int| 0 <= k < i ==> #[trigger] r@[k] == chain_boxes(start, path@)[k],
            forall|k: int| 0 <= k < i ==> (#[trigger] r@[k]).wf(),
        decreases n - i,
    {
        let p: Vector2 = path[i];
        r.push(Aabb::new_positive(prev, p));
        prev = p;
        i = i + 1;
    }
    proof {
        assert(r@ =~= chain_boxes(start, path@));
    }
}

/// Appends every point of `path`.
fn push_points(r: &mut Vec<Vector2>, path: &Vec<Vector2>)
    ensures
        final(r)@ == old(r)@ + path@,
{
    let n: usize = path.len();
    let mut i: usize = 0;
    while i < n
        invariant
            i <= n,
            n == path@.len(),
            r@ == old(r)@ + path@.subrange(0, i as int),
        decreases n - i,
    {
        let p: Vector2 = path[i];
        r.push(p);
        proof {
            assert(path@.subrange(0, i as int).push(path@[i as int]) =~= path@.subrange(
                0, i as int + 1));
        }
        i = i + 1;
    }
    proof {
        assert(path@.subrange(0, n as int) =~= path@);
    }
}

} // verus!
