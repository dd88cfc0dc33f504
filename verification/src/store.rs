//! The stroke store: owns the strokes, their selection and trash flags,
//! spatial queries over hitboxes, transform application, the selection-size
//! cache, history records and fire-and-forget render requests.

use vstd::prelude::*;
use crate::geom::{
    box_in_polygon, box_in_polygon_spec, dir_in_range, path_intersects_box,
    path_intersects_box_spec, rotate_pt_spec, scale_len_spec, scale_pt_spec, seg_intersects_box,
    Aabb, Frac, Scale2, Vector2,
};
use crate::options::{SmoothOptions, WIDTH_LIMIT};
use crate::penevent::WidgetFlags;
use crate::shape::Shape;

verus! {

/// A key names a stroke slot; slots are never removed, only trashed.
pub type StrokeKey = usize;

/// A stroke: a shape plus its smooth-style options and document flags.
#[derive(Clone, Debug)]
pub struct Stroke {
    pub shape: Shape,
    pub options: SmoothOptions,
    pub selected: bool,
    pub trashed: bool,
}

impl Stroke {
    pub open spec fn wf(self) -> bool {
        self.shape.wf() && self.options.wf()
    }
}

/// Identity on points, for stating that a transform left geometry alone.
pub open spec fn same_shape(a: Shape, b: Shape) -> bool {
    Shape::transformed_by(a, b, |p: Vector2| p, |l: i64| l)
}

/// A stroke's width scaled from its ghost baseline.
pub open spec fn scale_width_spec(w: u64, f: Frac) -> u64 {
    crate::geom::clamp_spec(
        crate::geom::div_trunc(w as int * f.num as int, f.den as int),
        0,
        WIDTH_LIMIT as int,
    ) as u64
}

/// Scales a width, saturating into `[0, WIDTH_LIMIT]`.
fn scale_width(w: u64, f: Frac) -> (r: u64)
    requires
        w <= WIDTH_LIMIT,
        f.wf(),
    ensures
        r == scale_width_spec(w, f),
        r <= WIDTH_LIMIT,
{
    proof {
        crate::geom::lemma_mul_bound(w as int, f.num as int, 1_000_000_000, 8_000_000);
    }
    let wide: u128 = (w as u128) * (f.num as u128);
    let q: u128 = wide / (f.den as u128);
    proof {
        vstd::arithmetic::div_mod::lemma_div_is_ordered_by_denominator(
            wide as int, 1, f.den as int);
        vstd::arithmetic::div_mod::lemma_div_basics(wide as int);
        vstd::arithmetic::div_mod::lemma_div_pos_is_pos(wide as int, f.den as int);
    }
    if q > WIDTH_LIMIT as u128 {
        WIDTH_LIMIT
    } else {
        q as u64
    }
}

/// The merged bounds of the listed strokes, folded left to right over the
/// stroke sequence.
pub open spec fn merged_bounds_of(strokes: Seq<Stroke>, keys: Seq<StrokeKey>, n: int) -> Aabb
    recommends
        1 <= n <= keys.len(),
    decreases n,
{
    if n <= 1 {
        strokes[keys[0] as int].shape.bounds_spec()
    } else {
        merged_bounds_of(strokes, keys, n - 1).merged_spec(
            strokes[keys[n - 1] as int].shape.bounds_spec(),
        )
    }
}

/// The stroke with its ghost width refreshed from its current width: the
/// commit the selector makes when the selection changes shape.
pub open spec fn ghost_committed(s: Stroke) -> Stroke {
    Stroke {
        options: SmoothOptions { stroke_width_ghost: s.options.stroke_width, ..s.options },
        ..s
    }
}

/// Selection, trash and style of the two strokes agree; only geometry may
/// differ.
pub open spec fn stroke_fields_except_shape(a: Stroke, b: Stroke) -> bool {
    a.options == b.options && a.selected == b.selected && a.trashed == b.trashed
}

/// Whether some hitbox of the stroke contains the position.
fn stroke_hit_at(s: &Stroke, pos: Vector2) -> (r: bool)
    requires
        s.wf(),
    ensures
        r == exists|j: int|
            0 <= j < s.shape.hitboxes_spec().len() && (#[trigger] s.shape.hitboxes_spec()[
                j
            ]).contains_pt(pos),
{
    let hb: Vec<Aabb> = s.shape.hitboxes();
    let n: usize = hb.len();
    let mut i: usize = 0;
    while i < n
        invariant
            i <= n,
            n == hb@.len(),
            hb@ == s.shape.hitboxes_spec(),
            forall|j: int| 0 <= j < i ==> !(#[trigger] hb@[j]).contains_pt(pos),
        decreases n - i,
    {
        if hb[i].contains_local_point(pos) {
            return true;
        }
        i = i + 1;
    }
    false
}

/// Whether every hitbox of the stroke lies inside the box.
fn stroke_contained_in_box(s: &Stroke, bx: &Aabb) -> (r: bool)
    requires
        s.wf(),
    ensures
        r == forall|j: int|
            0 <= j < s.shape.hitboxes_spec().len() ==> bx.contains_aabb(
                #[trigger] s.shape.hitboxes_spec()[j],
            ),
{
    let hb: Vec<Aabb> = s.shape.hitboxes();
    let n: usize = hb.len();
    let mut i: usize = 0;
    while i < n
        invariant
            i <= n,
            n == hb@.len(),
            hb@ == s.shape.hitboxes_spec(),
            forall|j: int| 0 <= j < i ==> bx.contains_aabb(#[trigger] hb@[j]),
        decreases n - i,
    {
        if !bx.contains_box(&hb[i]) {
            return false;
        }
        i = i + 1;
    }
    true
}

/// Whether every hitbox corner of the stroke lies inside the polygon.
fn stroke_contained_in_polygon(s: &Stroke, path: &Vec<Vector2>) -> (r: bool)
    requires
        s.wf(),
        forall|i: int| 0 <= i < path@.len() ==> (#[trigger] path@[i]).wf(),
    ensures
        r == forall|j: int|
            0 <= j < s.shape.hitboxes_spec().len() ==> box_in_polygon_spec(
                path@,
                #[trigger] s.shape.hitboxes_spec()[j],
            ),
{
    let hb: Vec<Aabb> = s.shape.hitboxes();
    let n: usize = hb.len();
    let mut i: usize = 0;
    while i < n
        invariant
            i <= n,
            n == hb@.len(),
            hb@ == s.shape.hitboxes_spec(),
            forall|j: int| 0 <= j < path@.len() ==> (#[trigger] path@[j]).wf(),
            forall|j: int| 0 <= j < hb@.len() ==> (#[trigger] hb@[j]).wf(),
            forall|j: int| 0 <= j < i ==> box_in_polygon_spec(path@, #[trigger] hb@[j]),
        decreases n - i,
    {
        if !box_in_polygon(path, &hb[i]) {
            return false;
        }
        i = i + 1;
    }
    true
}

/// Whether some hitbox of the stroke meets some segment of the path.
fn stroke_intersects_path(s: &Stroke, path: &Vec<Vector2>) -> (r: bool)
    requires
        s.wf(),
        forall|i: int| 0 <= i < path@.len() ==> (#[trigger] path@[i]).wf(),
    ensures
        r == exists|j: int|
            0 <= j < s.shape.hitboxes_spec().len() && path_intersects_box_spec(
                path@,
                #[trigger] s.shape.hitboxes_spec()[j],
            ),
{
    let hb: Vec<Aabb> = s.shape.hitboxes();
    let n: usize = hb.len();
    let mut i: usize = 0;
    while i < n
        invariant
            i <= n,
            n == hb@.len(),
            hb@ == s.shape.hitboxes_spec(),
            forall|j: int| 0 <= j < path@.len() ==> (#[trigger] path@[j]).wf(),
            forall|j: int| 0 <= j < hb@.len() ==> (#[trigger] hb@[j]).wf(),
            forall|j: int| 0 <= j < i ==> !path_intersects_box_spec(path@, #[trigger] hb@[j]),
        decreases n - i,
    {
        if path_intersects_box(path, &hb[i]) {
            return true;
        }
        i = i + 1;
    }
    false
}

/// A copy of every point of the vector.
fn copy_points(path: &Vec<Vector2>) -> (r: Vec<Vector2>)
    ensures
        r@ == path@,
{
    let n: usize = path.len();
    let mut r: Vec<Vector2> = Vec::new();
    let mut i: usize = 0;
    while i < n
        invariant
            i <= n,
            n == path@.len(),
            r@ == path@.subrange(0, i as int),
        decreases n - i,
    {
        let p: Vector2 = path[i];
        r.push(p);
        proof {
            assert(path@.subrange(0, i as int).push(path@[i as int]) =~= path@.subrange(
                0, i as int + 1));
        }
        i = i + 1;
    }
    proof {
        assert(path@.subrange(0, n as int) =~= path@);
    }
    r
}

/// A fresh shape with the same geometry.
fn duplicate_shape(s: &Shape) -> (r: Shape)
    requires
        s.wf(),
    ensures
        same_shape(*s, r),
        r.wf(),
{
    match s {
        Shape::Line(v) => Shape::Line(*v),
        Shape::Arrow(v) => Shape::Arrow(*v),
        Shape::Rectangle(v) => Shape::Rectangle(
            crate::shape::Rectangle { bounds: Aabb::new_positive(v.bounds.mins, v.bounds.maxs) },
        ),
        Shape::Ellipse(v) => Shape::Ellipse(*v),
        Shape::QuadraticBezier(v) => Shape::QuadraticBezier(*v),
        Shape::CubicBezier(v) => Shape::CubicBezier(*v),
        Shape::Polyline(v) => Shape::Polyline(
            crate::shape::Polyline { start: v.start, path: copy_points(&v.path) },
        ),
        Shape::Polygon(v) => Shape::Polygon(
            crate::shape::Polygon { start: v.start, path: copy_points(&v.path) },
        ),
    }
}

/// Whether a key is among the listed keys.
pub fn contains_key(keys: &Vec<StrokeKey>, k: StrokeKey) -> (r: bool)
    ensures
        r == keys@.contains(k),
{
    let n: usize = keys.len();
    let mut i: usize = 0;
    while i < n
        invariant
            i <= n,
            n == keys@.len(),
            forall|j: int| 0 <= j < i ==> keys@[j] != k,
        decreases n - i,
    {
        if keys[i] == k {
            return true;
        }
        i = i + 1;
    }
    false
}

/// The store of strokes and the bookkeeping around them.
#[derive(Debug)]
pub struct StrokeStore {
    pub strokes: Vec<Stroke>,
    /// The selection's size when it was made; the baseline the stroke-width
    /// scale is computed against during a resize.
    pub initial_size_selection: Option<Vector2>,
    /// History checkpoints recorded so far.
    pub history_records: u64,
    /// Threaded re-render requests issued so far; the rendering backend
    /// consumes them outside this library.
    pub render_requests: u64,
}

impl StrokeStore {
    pub open spec fn wf(self) -> bool {
        &&& (forall|i: int| 0 <= i < self.strokes@.len() ==> (#[trigger] self.strokes@[i]).wf())
        &&& match self.initial_size_selection {
            Some(v) => 0 <= v.x <= 2_000_000 && 0 <= v.y <= 2_000_000,
            None => true,
        }
    }

    pub open spec fn n(self) -> int {
        self.strokes@.len() as int
    }

    pub open spec fn valid_key(self, k: int) -> bool {
        0 <= k < self.n()
    }

    /// All keys in the list name strokes.
    pub open spec fn keys_valid(self, keys: Seq<StrokeKey>) -> bool {
        forall|i: int| 0 <= i < keys.len() ==> self.valid_key(#[trigger] keys[i] as int)
    }

    pub open spec fn stroke_bounds(self, k: int) -> Aabb
        recommends
            self.valid_key(k),
    {
        self.strokes@[k].shape.bounds_spec()
    }

    /// Selected, not trashed: what the selection queries look at.
    pub open spec fn selected_rendered(self, k: int) -> bool {
        self.valid_key(k) && self.strokes@[k].selected && !self.strokes@[k].trashed
    }

    /// Not trashed and with bounds meeting the viewport: a candidate for
    /// every spatial query.
    pub open spec fn rendered_in_viewport(self, viewport: Aabb, k: int) -> bool {
        self.valid_key(k) && !self.strokes@[k].trashed && self.stroke_bounds(k).intersects(
            viewport)
    }

    /// Some hitbox of the stroke contains the position.
    pub open spec fn hits_coord(self, viewport: Aabb, pos: Vector2, k: int) -> bool {
        self.rendered_in_viewport(viewport, k) && exists|j: int|
            0 <= j < self.strokes@[k].shape.hitboxes_spec().len()
                && (#[trigger] self.strokes@[k].shape.hitboxes_spec()[j]).contains_pt(pos)
    }

    /// Every hitbox of the stroke lies inside the box.
    pub open spec fn contained_in_box(self, bx: Aabb, viewport: Aabb, k: int) -> bool {
        self.rendered_in_viewport(viewport, k) && forall|j: int|
            0 <= j < self.strokes@[k].shape.hitboxes_spec().len() ==> bx.contains_aabb(
                #[trigger] self.strokes@[k].shape.hitboxes_spec()[j])
    }

    /// Every hitbox corner of the stroke lies inside the polygon.
    pub open spec fn contained_in_polygon(self, path: Seq<Vector2>, viewport: Aabb, k: int)
        -> bool {
        self.rendered_in_viewport(viewport, k) && forall|j: int|
            0 <= j < self.strokes@[k].shape.hitboxes_spec().len() ==> box_in_polygon_spec(
                path,
                #[trigger] self.strokes@[k].shape.hitboxes_spec()[j],
            )
    }

    /// Some hitbox of the stroke meets some segment of the path.
    pub open spec fn intersects_path(self, path: Seq<Vector2>, viewport: Aabb, k: int) -> bool {
        self.rendered_in_viewport(viewport, k) && exists|j: int|
            0 <= j < self.strokes@[k].shape.hitboxes_spec().len() && path_intersects_box_spec(
                path,
                #[trigger] self.strokes@[k].shape.hitboxes_spec()[j],
            )
    }

    /// The merged bounds of the listed strokes, folded left to right; a
    /// function of the strokes alone.
    pub open spec fn merged_bounds(self, keys: Seq<StrokeKey>, n: int) -> Aabb
        recommends
            1 <= n <= keys.len(),
            self.keys_valid(keys),
    {
        merged_bounds_of(self.strokes@, keys, n)
    }

    /// An empty store.
    pub fn new() -> (r: StrokeStore)
        ensures
            r.strokes@.len() == 0,
            r.initial_size_selection is None,
            r.history_records == 0,
            r.render_requests == 0,
            r.wf(),
    {
        StrokeStore {
            strokes: Vec::new(),
            initial_size_selection: None,
            history_records: 0,
            render_requests: 0,
        }
    }

    /// Adds a stroke; it starts unselected and untrashed.
    pub fn insert_stroke(&mut self, shape: Shape, options: SmoothOptions) -> (key: StrokeKey)
        requires
            old(self).wf(),
            shape.wf(),
            options.wf(),
        ensures
            key as int == old(self).n(),
            final(self).strokes@ == old(self).strokes@.push(
                Stroke { shape, options, selected: false, trashed: false },
            ),
            final(self).initial_size_selection == old(self).initial_size_selection,
            final(self).history_records == old(self).history_records,
            final(self).render_requests == old(self).render_requests,
            final(self).wf(),
    {
        let key: usize = self.strokes.len();
        self.strokes.push(Stroke { shape, options, selected: false, trashed: false });
        key
    }

    /// Whether the stroke under the key is selected, if it exists.
    pub fn selected(&self, key: StrokeKey) -> (r: Option<bool>)
        ensures
            r == if self.valid_key(key as int) {
                Some(self.strokes@[key as int].selected)
            } else {
                None::<bool>
            },
    {
        if key < self.strokes.len() {
            Some(self.strokes[key].selected)
        } else {
            None
        }
    }

    /// Sets one stroke's selection flag.
    pub fn set_selected(&mut self, key: StrokeKey, selected: bool)
        requires
            old(self).wf(),
            old(self).valid_key(key as int),
        ensures
            final(self).strokes@ == old(self).strokes@.update(
                key as int,
                Stroke { selected, ..old(self).strokes@[key as int] },
            ),
            final(self).initial_size_selection == old(self).initial_size_selection,
            final(self).history_records == old(self).history_records,
            final(self).render_requests == old(self).render_requests,
            final(self).wf(),
    {
        self.strokes[key].selected = selected;
        proof {
            assert(self.strokes@ =~= old(self).strokes@.update(
                key as int,
                Stroke { selected, ..old(self).strokes@[key as int] },
            ));
        }
    }

    /// Sets the selection flag of every listed stroke.
    pub fn set_selected_keys(&mut self, keys: &Vec<StrokeKey>, selected: bool)
        requires
            old(self).wf(),
            old(self).keys_valid(keys@),
        ensures
            final(self).strokes@.len() == old(self).strokes@.len(),
            forall|k: int|
                0 <= k < old(self).n() ==> #[trigger] final(self).strokes@[k] == if keys@.contains(
                    k as StrokeKey,
                ) {
                    Stroke { selected, ..old(self).strokes@[k] }
                } else {
                    old(self).strokes@[k]
                },
            final(self).initial_size_selection == old(self).initial_size_selection,
            final(self).history_records == old(self).history_records,
            final(self).render_requests == old(self).render_requests,
            final(self).wf(),
    {
        let n: usize = self.strokes.len();
        let mut i: usize = 0;
        while i < n
            invariant
                i <= n,
                n == self.strokes@.len(),
                self.strokes@.len() == old(self).strokes@.len(),
                old(self).wf(),
                forall|k: int| i <= k < n ==> self.strokes@[k] == old(self).strokes@[k],
                forall|k: int|
                    0 <= k < i ==> #[trigger] self.strokes@[k] == if keys@.contains(
                        k as StrokeKey,
                    ) {
                        Stroke { selected, ..old(self).strokes@[k] }
                    } else {
                        old(self).strokes@[k]
                    },
                self.initial_size_selection == old(self).initial_size_selection,
                self.history_records == old(self).history_records,
                self.render_requests == old(self).render_requests,
            decreases n - i,
        {
            if contains_key(keys, i) {
                self.strokes[i].selected = selected;
            }
            i = i + 1;
        }
    }

    /// Marks the listed strokes trashed or restored; trashing deselects.
    pub fn set_trashed_keys(&mut self, keys: &Vec<StrokeKey>, trashed: bool)
        requires
            old(self).wf(),
            old(self).keys_valid(keys@),
        ensures
            final(self).strokes@.len() == old(self).strokes@.len(),
            forall|k: int|
                0 <= k < old(self).n() ==> #[trigger] final(self).strokes@[k] == if keys@.contains(
                    k as StrokeKey,
                ) {
                    Stroke { trashed, selected: false, ..old(self).strokes@[k] }
                } else {
                    old(self).strokes@[k]
                },
            final(self).initial_size_selection == old(self).initial_size_selection,
            final(self).history_records == old(self).history_records,
            final(self).render_requests == old(self).render_requests,
            final(self).wf(),
    {
        let n: usize = self.strokes.len();
        let mut i: usize = 0;
        while i < n
            invariant
                i <= n,
                n == self.strokes@.len(),
                self.strokes@.len() == old(self).strokes@.len(),
                old(self).wf(),
                forall|k: int| i <= k < n ==> self.strokes@[k] == old(self).strokes@[k],
                forall|k: int|
                    0 <= k < i ==> #[trigger] self.strokes@[k] == if keys@.contains(
                        k as StrokeKey,
                    ) {
                        Stroke { trashed, selected: false, ..old(self).strokes@[k] }
                    } else {
                        old(self).strokes@[k]
                    },
                self.initial_size_selection == old(self).initial_size_selection,
                self.history_records == old(self).history_records,
                self.render_requests == old(self).render_requests,
            decreases n - i,
        {
            if contains_key(keys, i) {
                self.strokes[i].trashed = trashed;
                self.strokes[i].selected = false;
            }
            i = i + 1;
        }
    }

    /// Copies each listed stroke's current width into its ghost width, so a
    /// following resize scales from the right baseline.
    pub fn copy_ghost_stroke_width(&mut self, keys: &Vec<StrokeKey>)
        requires
            old(self).wf(),
            old(self).keys_valid(keys@),
        ensures
            final(self).strokes@.len() == old(self).strokes@.len(),
            forall|k: int|
                0 <= k < old(self).n() ==> #[trigger] final(self).strokes@[k] == if keys@.contains(
                    k as StrokeKey,
                ) {
                    Stroke {
                        options: SmoothOptions {
                            stroke_width_ghost: old(self).strokes@[k].options.stroke_width,
                            ..old(self).strokes@[k].options
                        },
                        ..old(self).strokes@[k]
                    }
                } else {
                    old(self).strokes@[k]
                },
            final(self).initial_size_selection == old(self).initial_size_selection,
            final(self).history_records == old(self).history_records,
            final(self).render_requests == old(self).render_requests,
            final(self).wf(),
    {
        let n: usize = self.strokes.len();
        let mut i: usize = 0;
        while i < n
            invariant
                i <= n,
                n == self.strokes@.len(),
                self.strokes@.len() == old(self).strokes@.len(),
                old(self).wf(),
                forall|k: int| i <= k < n ==> self.strokes@[k] == old(self).strokes@[k],
                forall|k: int|
                    0 <= k < i ==> #[trigger] self.strokes@[k] == if keys@.contains(
                        k as StrokeKey,
                    ) {
                        Stroke {
                            options: SmoothOptions {
                                stroke_width_ghost: old(self).strokes@[k].options.stroke_width,
                                ..old(self).strokes@[k].options
                            },
                            ..old(self).strokes@[k]
                        }
                    } else {
                        old(self).strokes@[k]
                    },
                self.initial_size_selection == old(self).initial_size_selection,
                self.history_records == old(self).history_records,
                self.render_requests == old(self).render_requests,
            decreases n - i,
        {
            if contains_key(keys, i) {
                let w: u64 = self.strokes[i].options.stroke_width;
                self.strokes[i].options.stroke_width_ghost = w;
            }
            i = i + 1;
        }
    }

    /// Refreshes internal geometry caches for the listed strokes. In this
    /// model, bounds and hitboxes are derived on demand, so there is nothing
    /// to rebuild; the call is kept as the commit point of the interface.
    pub fn update_geometry_for_strokes(&mut self, keys: &Vec<StrokeKey>)
        requires
            old(self).wf(),
            old(self).keys_valid(keys@),
        ensures
            *final(self) == *old(self),
    {
    }

    /// Keys of all selected, untrashed strokes, ascending.
    pub fn selection_keys_as_rendered(&self) -> (r: Vec<StrokeKey>)
        requires
            self.wf(),
        ensures
            forall|a: int, b: int| 0 <= a < b < r@.len() ==> r@[a] < r@[b],
            forall|i: int| 0 <= i < r@.len() ==> self.selected_rendered(#[trigger] r@[i] as int),
            forall|k: int|
                0 <= k < self.n() && self.selected_rendered(k) ==> r@.contains(k as StrokeKey),
    {
        let n: usize = self.strokes.len();
        let mut r: Vec<StrokeKey> = Vec::new();
        let mut i: usize = 0;
        while i < n
            invariant
                i <= n,
                n == self.strokes@.len(),
                forall|a: int, b: int| 0 <= a < b < r@.len() ==> r@[a] < r@[b],
                forall|j: int|
                    0 <= j < r@.len() ==> self.selected_rendered(#[trigger] r@[j] as int)
                        && r@[j] < i,
                forall|k: int|
                    0 <= k < i && self.selected_rendered(k) ==> r@.contains(k as StrokeKey),
            decreases n - i,
        {
            if self.strokes[i].selected && !self.strokes[i].trashed {
                let ghost prev = r@;
                r.push(i);
                proof {
                    assert forall|k: int| 0 <= k < i + 1 && self.selected_rendered(k)
                        implies r@.contains(k as StrokeKey) by {
                        if k < i as int {
                            let j = choose|j: int| 0 <= j < prev.len() && prev[j] == k as StrokeKey;
                            assert(r@[j] == k as StrokeKey);
                        } else {
                            assert(r@[r@.len() - 1] == k as StrokeKey);
                        }
                    }
                }
            }
            i = i + 1;
        }
        r
    }

    /// Keys of all untrashed strokes, ascending.
    pub fn stroke_keys_as_rendered(&self) -> (r: Vec<StrokeKey>)
        requires
            self.wf(),
        ensures
            forall|a: int, b: int| 0 <= a < b < r@.len() ==> r@[a] < r@[b],
            forall|i: int|
                0 <= i < r@.len() ==> self.valid_key(#[trigger] r@[i] as int) && !self.strokes@[
                    r@[i] as int
                ].trashed,
            forall|k: int|
                0 <= k < self.n() && !self.strokes@[k].trashed ==> r@.contains(k as StrokeKey),
    {
        let n: usize = self.strokes.len();
        let mut r: Vec<StrokeKey> = Vec::new();
        let mut i: usize = 0;
        while i < n
            invariant
                i <= n,
                n == self.strokes@.len(),
                forall|a: int, b: int| 0 <= a < b < r@.len() ==> r@[a] < r@[b],
                forall|j: int|
                    0 <= j < r@.len() ==> self.valid_key(#[trigger] r@[j] as int) && !self.strokes@[
                        r@[j] as int
                    ].trashed && r@[j] < i,
                forall|k: int|
                    0 <= k < i && !self.strokes@[k].trashed ==> r@.contains(k as StrokeKey),
            decreases n - i,
        {
            if !self.strokes[i].trashed {
                let ghost prev = r@;
                r.push(i);
                proof {
                    assert forall|k: int| 0 <= k < i + 1 && !self.strokes@[k].trashed
                        implies r@.contains(k as StrokeKey) by {
                        if k < i as int {
                            let j = choose|j: int| 0 <= j < prev.len() && prev[j] == k as StrokeKey;
                            assert(r@[j] == k as StrokeKey);
                        } else {
                            assert(r@[r@.len() - 1] == k as StrokeKey);
                        }
                    }
                }
            }
            i = i + 1;
        }
        r
    }

    /// Keys of the untrashed strokes in the viewport with a hitbox under
    /// `pos`, ascending; the topmost candidate is the last.
    pub fn stroke_hitboxes_contain_coord(&self, viewport: Aabb, pos: Vector2) -> (r: Vec<
        StrokeKey,
    >)
        requires
            self.wf(),
        ensures
            forall|a: int, b: int| 0 <= a < b < r@.len() ==> r@[a] < r@[b],
            forall|i: int|
                0 <= i < r@.len() ==> self.hits_coord(viewport, pos, #[trigger] r@[i] as int),
            forall|k: int|
                0 <= k < self.n() && self.hits_coord(viewport, pos, k) ==> r@.contains(
                    k as StrokeKey),
            r@.len() == 0 ==> forall|k: int| !self.hits_coord(viewport, pos, k),
            r@.len() > 0 ==> forall|k: int|
                self.hits_coord(viewport, pos, k) ==> k <= r@[r@.len() - 1] as int,
    {
        let n: usize = self.strokes.len();
        let mut r: Vec<StrokeKey> = Vec::new();
        let mut i: usize = 0;
        while i < n
            invariant
                i <= n,
                n == self.strokes@.len(),
                self.wf(),
                forall|a: int, b: int| 0 <= a < b < r@.len() ==> r@[a] < r@[b],
                forall|j: int|
                    0 <= j < r@.len() ==> self.hits_coord(viewport, pos, #[trigger] r@[j] as int)
                        && r@[j] < i,
                forall|k: int|
                    0 <= k < i && self.hits_coord(viewport, pos, k) ==> r@.contains(
                        k as StrokeKey),
            decreases n - i,
        {
            let in_vp: bool = !self.strokes[i].trashed && self.strokes[i].shape.bounds()
                .intersects_box(&viewport);
            if in_vp && stroke_hit_at(&self.strokes[i], pos) {
                let ghost prev = r@;
                r.push(i);
                proof {
                    assert forall|k: int| 0 <= k < i + 1 && self.hits_coord(viewport, pos, k)
                        implies r@.contains(k as StrokeKey) by {
                        if k < i as int {
                            let j = choose|j: int| 0 <= j < prev.len() && prev[j] == k as StrokeKey;
                            assert(r@[j] == k as StrokeKey);
                        } else {
                            assert(r@[r@.len() - 1] == k as StrokeKey);
                        }
                    }
                }
            }
            i = i + 1;
        }
        proof {
            if r@.len() > 0 {
                assert forall|k: int| self.hits_coord(viewport, pos, k)
                    implies k <= r@[r@.len() - 1] as int by {
                    assert(r@.contains(k as StrokeKey));
                    let j = choose|j: int| 0 <= j < r@.len() && r@[j] == k as StrokeKey;
                    if j < r@.len() - 1 {
                        assert(r@[j] < r@[r@.len() - 1]);
                    }
                }
            }
        }
        r
    }

    /// Keys of the untrashed strokes in the viewport whose hitboxes all lie
    /// inside the box, ascending.
    pub fn strokes_hitboxes_contained_in_aabb(&self, aabb: Aabb, viewport: Aabb) -> (r: Vec<
        StrokeKey,
    >)
        requires
            self.wf(),
        ensures
            forall|a: int, b: int| 0 <= a < b < r@.len() ==> r@[a] < r@[b],
            forall|i: int|
                0 <= i < r@.len() ==> self.contained_in_box(aabb, viewport, #[trigger] r@[i] as int),
            forall|k: int|
                0 <= k < self.n() && self.contained_in_box(aabb, viewport, k) ==> r@.contains(
                    k as StrokeKey),
    {
        let n: usize = self.strokes.len();
        let mut r: Vec<StrokeKey> = Vec::new();
        let mut i: usize = 0;
        while i < n
            invariant
                i <= n,
                n == self.strokes@.len(),
                self.wf(),
                forall|a: int, b: int| 0 <= a < b < r@.len() ==> r@[a] < r@[b],
                forall|j: int|
                    0 <= j < r@.len() ==> self.contained_in_box(
                        aabb, viewport, #[trigger] r@[j] as int) && r@[j] < i,
                forall|k: int|
                    0 <= k < i && self.contained_in_box(aabb, viewport, k) ==> r@.contains(
                        k as StrokeKey),
            decreases n - i,
        {
            let in_vp: bool = !self.strokes[i].trashed && self.strokes[i].shape.bounds()
                .intersects_box(&viewport);
            if in_vp && stroke_contained_in_box(&self.strokes[i], &aabb) {
                let ghost prev = r@;
                r.push(i);
                proof {
                    assert forall|k: int| 0 <= k < i + 1 && self.contained_in_box(
                        aabb, viewport, k) implies r@.contains(k as StrokeKey) by {
                        if k < i as int {
                            let j = choose|j: int| 0 <= j < prev.len() && prev[j] == k as StrokeKey;
                            assert(r@[j] == k as StrokeKey);
                        } else {
                            assert(r@[r@.len() - 1] == k as StrokeKey);
                        }
                    }
                }
            }
            i = i + 1;
        }
        r
    }

    /// Keys of the untrashed strokes in the viewport whose hitbox corners
    /// all lie inside the polygon traced by `path`, ascending.
    pub fn strokes_hitboxes_contained_in_path_polygon(
        &self,
        path: &Vec<Vector2>,
        viewport: Aabb,
    ) -> (r: Vec<StrokeKey>)
        requires
            self.wf(),
            forall|i: int| 0 <= i < path@.len() ==> (#[trigger] path@[i]).wf(),
        ensures
            forall|a: int, b: int| 0 <= a < b < r@.len() ==> r@[a] < r@[b],
            forall|i: int|
                0 <= i < r@.len() ==> self.contained_in_polygon(
                    path@, viewport, #[trigger] r@[i] as int),
            forall|k: int|
                0 <= k < self.n() && self.contained_in_polygon(path@, viewport, k) ==> r@.contains(
                    k as StrokeKey),
    {
        let n: usize = self.strokes.len();
        let mut r: Vec<StrokeKey> = Vec::new();
        let mut i: usize = 0;
        while i < n
            invariant
                i <= n,
                n == self.strokes@.len(),
                self.wf(),
                forall|j: int| 0 <= j < path@.len() ==> (#[trigger] path@[j]).wf(),
                forall|a: int, b: int| 0 <= a < b < r@.len() ==> r@[a] < r@[b],
                forall|j: int|
                    0 <= j < r@.len() ==> self.contained_in_polygon(
                        path@, viewport, #[trigger] r@[j] as int) && r@[j] < i,
                forall|k: int|
                    0 <= k < i && self.contained_in_polygon(path@, viewport, k) ==> r@.contains(
                        k as StrokeKey),
            decreases n - i,
        {
            let in_vp: bool = !self.strokes[i].trashed && self.strokes[i].shape.bounds()
                .intersects_box(&viewport);
            if in_vp && stroke_contained_in_polygon(&self.strokes[i], path) {
                let ghost prev = r@;
                r.push(i);
                proof {
                    assert forall|k: int| 0 <= k < i + 1 && self.contained_in_polygon(
                        path@, viewport, k) implies r@.contains(k as StrokeKey) by {
                        if k < i as int {
                            let j = choose|j: int| 0 <= j < prev.len() && prev[j] == k as StrokeKey;
                            assert(r@[j] == k as StrokeKey);
                        } else {
                            assert(r@[r@.len() - 1] == k as StrokeKey);
                        }
                    }
                }
            }
            i = i + 1;
        }
        r
    }

    /// Keys of the untrashed strokes in the viewport with a hitbox meeting
    /// the path, ascending.
    pub fn strokes_hitboxes_intersect_path(&self, path: &Vec<Vector2>, viewport: Aabb) -> (r: Vec<
        StrokeKey,
    >)
        requires
            self.wf(),
            forall|i: int| 0 <= i < path@.len() ==> (#[trigger] path@[i]).wf(),
        ensures
            forall|a: int, b: int| 0 <= a < b < r@.len() ==> r@[a] < r@[b],
            forall|i: int|
                0 <= i < r@.len() ==> self.intersects_path(
                    path@, viewport, #[trigger] r@[i] as int),
            forall|k: int|
                0 <= k < self.n() && self.intersects_path(path@, viewport, k) ==> r@.contains(
                    k as StrokeKey),
    {
        let n: usize = self.strokes.len();
        let mut r: Vec<StrokeKey> = Vec::new();
        let mut i: usize = 0;
        while i < n
            invariant
                i <= n,
                n == self.strokes@.len(),
                self.wf(),
                forall|j: int| 0 <= j < path@.len() ==> (#[trigger] path@[j]).wf(),
                forall|a: int, b: int| 0 <= a < b < r@.len() ==> r@[a] < r@[b],
                forall|j: int|
                    0 <= j < r@.len() ==> self.intersects_path(
                        path@, viewport, #[trigger] r@[j] as int) && r@[j] < i,
                forall|k: int|
                    0 <= k < i && self.intersects_path(path@, viewport, k) ==> r@.contains(
                        k as StrokeKey),
            decreases n - i,
        {
            let in_vp: bool = !self.strokes[i].trashed && self.strokes[i].shape.bounds()
                .intersects_box(&viewport);
            if in_vp && stroke_intersects_path(&self.strokes[i], path) {
                let ghost prev = r@;
                r.push(i);
                proof {
                    assert forall|k: int| 0 <= k < i + 1 && self.intersects_path(
                        path@, viewport, k) implies r@.contains(k as StrokeKey) by {
                        if k < i as int {
                            let j = choose|j: int| 0 <= j < prev.len() && prev[j] == k as StrokeKey;
                            assert(r@[j] == k as StrokeKey);
                        } else {
                            assert(r@[r@.len() - 1] == k as StrokeKey);
                        }
                    }
                }
            }
            i = i + 1;
        }
        r
    }

    /// The merged bounds of the listed strokes; `None` only for no keys.
    pub fn bounds_for_strokes(&self, keys: &Vec<StrokeKey>) -> (r: Option<Aabb>)
        requires
            self.wf(),
            self.keys_valid(keys@),
        ensures
            r == if keys@.len() == 0 {
                None::<Aabb>
            } else {
                Some(self.merged_bounds(keys@, keys@.len() as int))
            },
            r matches Some(b) ==> b.wf(),
    {
        let n: usize = keys.len();
        if n == 0 {
            return None;
        }
        let k0: usize = keys[0];
        let mut acc: Aabb = self.strokes[k0].shape.bounds();
        let mut i: usize = 1;
        while i < n
            invariant
                1 <= i <= n,
                n == keys@.len(),
                self.wf(),
                self.keys_valid(keys@),
                acc == self.merged_bounds(keys@, i as int),
                acc.wf(),
            decreases n - i,
        {
            let k: usize = keys[i];
            let b: Aabb = self.strokes[k].shape.bounds();
            acc = acc.merged(&b);
            i = i + 1;
        }
        Some(acc)
    }

    /// Translates the listed strokes' geometry by `offset`.
    pub fn translate_strokes(&mut self, keys: &Vec<StrokeKey>, offset: Vector2)
        requires
            old(self).wf(),
            old(self).keys_valid(keys@),
            offset.wf(),
        ensures
            final(self).strokes@.len() == old(self).strokes@.len(),
            forall|k: int|
                0 <= k < old(self).n() && keys@.contains(k as StrokeKey)
                    ==> Shape::transformed_by(
                    old(self).strokes@[k].shape,
                    (#[trigger] final(self).strokes@[k]).shape,
                    |p: Vector2| p.plus_spec(offset),
                    |l: i64| l,
                ) && stroke_fields_except_shape(old(self).strokes@[k], final(self).strokes@[k]),
            forall|k: int|
                0 <= k < old(self).n() && !keys@.contains(k as StrokeKey)
                    ==> #[trigger] final(self).strokes@[k] == old(self).strokes@[k],
            final(self).initial_size_selection == old(self).initial_size_selection,
            final(self).history_records == old(self).history_records,
            final(self).render_requests == old(self).render_requests,
            final(self).wf(),
    {
        let n: usize = self.strokes.len();
        let mut i: usize = 0;
        while i < n
            invariant
                i <= n,
                n == self.strokes@.len(),
                self.strokes@.len() == old(self).strokes@.len(),
                old(self).wf(),
                offset.wf(),
                forall|k: int| i <= k < n ==> self.strokes@[k] == old(self).strokes@[k],
                forall|k: int|
                    0 <= k < i && keys@.contains(k as StrokeKey) ==> Shape::transformed_by(
                        old(self).strokes@[k].shape,
                        (#[trigger] self.strokes@[k]).shape,
                        |p: Vector2| p.plus_spec(offset),
                        |l: i64| l,
                    ) && stroke_fields_except_shape(old(self).strokes@[k], self.strokes@[k]),
                forall|k: int|
                    0 <= k < i && !keys@.contains(k as StrokeKey) ==> #[trigger] self.strokes@[k]
                        == old(self).strokes@[k],
                forall|k: int| 0 <= k < n ==> (#[trigger] self.strokes@[k]).wf(),
                self.initial_size_selection == old(self).initial_size_selection,
                self.history_records == old(self).history_records,
                self.render_requests == old(self).render_requests,
            decreases n - i,
        {
            if contains_key(keys, i) {
                self.strokes[i].shape.translate(offset);
            }
            i = i + 1;
        }
    }

    /// Turns the listed strokes' geometry about `center` by the angle taking
    /// direction `from_dir` to direction `to_dir`.
    pub fn rotate_strokes(
        &mut self,
        keys: &Vec<StrokeKey>,
        center: Vector2,
        from_dir: Vector2,
        to_dir: Vector2,
    )
        requires
            old(self).wf(),
            old(self).keys_valid(keys@),
            center.wf(),
            dir_in_range(from_dir),
            dir_in_range(to_dir),
        ensures
            final(self).strokes@.len() == old(self).strokes@.len(),
            forall|k: int|
                0 <= k < old(self).n() && keys@.contains(k as StrokeKey)
                    ==> Shape::transformed_by(
                    old(self).strokes@[k].shape,
                    (#[trigger] final(self).strokes@[k]).shape,
                    |p: Vector2| rotate_pt_spec(p, center, from_dir, to_dir),
                    |l: i64| l,
                ) && stroke_fields_except_shape(old(self).strokes@[k], final(self).strokes@[k]),
            forall|k: int|
                0 <= k < old(self).n() && !keys@.contains(k as StrokeKey)
                    ==> #[trigger] final(self).strokes@[k] == old(self).strokes@[k],
            final(self).initial_size_selection == old(self).initial_size_selection,
            final(self).history_records == old(self).history_records,
            final(self).render_requests == old(self).render_requests,
            final(self).wf(),
    {
        let n: usize = self.strokes.len();
        let mut i: usize = 0;
        while i < n
            invariant
                i <= n,
                n == self.strokes@.len(),
                self.strokes@.len() == old(self).strokes@.len(),
                old(self).wf(),
                center.wf(),
                dir_in_range(from_dir),
                dir_in_range(to_dir),
                forall|k: int| i <= k < n ==> self.strokes@[k] == old(self).strokes@[k],
                forall|k: int|
                    0 <= k < i && keys@.contains(k as StrokeKey) ==> Shape::transformed_by(
                        old(self).strokes@[k].shape,
                        (#[trigger] self.strokes@[k]).shape,
                        |p: Vector2| rotate_pt_spec(p, center, from_dir, to_dir),
                        |l: i64| l,
                    ) && stroke_fields_except_shape(old(self).strokes@[k], self.strokes@[k]),
                forall|k: int|
                    0 <= k < i && !keys@.contains(k as StrokeKey) ==> #[trigger] self.strokes@[k]
                        == old(self).strokes@[k],
                forall|k: int| 0 <= k < n ==> (#[trigger] self.strokes@[k]).wf(),
                self.initial_size_selection == old(self).initial_size_selection,
                self.history_records == old(self).history_records,
                self.render_requests == old(self).render_requests,
            decreases n - i,
        {
            if contains_key(keys, i) {
                self.strokes[i].shape.rotate(center, from_dir, to_dir);
            }
            i = i + 1;
        }
    }

    /// Scales the listed strokes about `pivot`: geometry by `scale_resize`,
    /// stroke width from the ghost baseline by `scale_stroke`'s x factor.
    pub fn scale_strokes_with_pivot(
        &mut self,
        keys: &Vec<StrokeKey>,
        scale_stroke: Scale2,
        scale_resize: Scale2,
        pivot: Vector2,
    )
        requires
            old(self).wf(),
            old(self).keys_valid(keys@),
            scale_stroke.wf(),
            scale_resize.wf(),
            pivot.wf(),
        ensures
            final(self).strokes@.len() == old(self).strokes@.len(),
            forall|k: int|
                0 <= k < old(self).n() && keys@.contains(k as StrokeKey)
                    ==> Shape::transformed_by(
                    old(self).strokes@[k].shape,
                    (#[trigger] final(self).strokes@[k]).shape,
                    |p: Vector2| scale_pt_spec(p, pivot, scale_resize),
                    |l: i64| scale_len_spec(l, scale_resize.x),
                ) && final(self).strokes@[k].options == (SmoothOptions {
                    stroke_width: scale_width_spec(
                        old(self).strokes@[k].options.stroke_width_ghost,
                        scale_stroke.x,
                    ),
                    ..old(self).strokes@[k].options
                }) && final(self).strokes@[k].selected == old(self).strokes@[k].selected
                    && final(self).strokes@[k].trashed == old(self).strokes@[k].trashed,
            forall|k: int|
                0 <= k < old(self).n() && !keys@.contains(k as StrokeKey)
                    ==> #[trigger] final(self).strokes@[k] == old(self).strokes@[k],
            final(self).initial_size_selection == old(self).initial_size_selection,
            final(self).history_records == old(self).history_records,
            final(self).render_requests == old(self).render_requests,
            final(self).wf(),
    {
        let n: usize = self.strokes.len();
        let mut i: usize = 0;
        while i < n
            invariant
                i <= n,
                n == self.strokes@.len(),
                self.strokes@.len() == old(self).strokes@.len(),
                old(self).wf(),
                scale_stroke.wf(),
                scale_resize.wf(),
                pivot.wf(),
                forall|k: int| i <= k < n ==> self.strokes@[k] == old(self).strokes@[k],
                forall|k: int|
                    0 <= k < i && keys@.contains(k as StrokeKey) ==> Shape::transformed_by(
                        old(self).strokes@[k].shape,
                        (#[trigger] self.strokes@[k]).shape,
                        |p: Vector2| scale_pt_spec(p, pivot, scale_resize),
                        |l: i64| scale_len_spec(l, scale_resize.x),
                    ) && self.strokes@[k].options == (SmoothOptions {
                        stroke_width: scale_width_spec(
                            old(self).strokes@[k].options.stroke_width_ghost,
                            scale_stroke.x,
                        ),
                        ..old(self).strokes@[k].options
                    }) && self.strokes@[k].selected == old(self).strokes@[k].selected
                        && self.strokes@[k].trashed == old(self).strokes@[k].trashed,
                forall|k: int|
                    0 <= k < i && !keys@.contains(k as StrokeKey) ==> #[trigger] self.strokes@[k]
                        == old(self).strokes@[k],
                forall|k: int| 0 <= k < n ==> (#[trigger] self.strokes@[k]).wf(),
                self.initial_size_selection == old(self).initial_size_selection,
                self.history_records == old(self).history_records,
                self.render_requests == old(self).render_requests,
            decreases n - i,
        {
            if contains_key(keys, i) {
                self.strokes[i].shape.scale(scale_resize, pivot);
                let ghost_w: u64 = self.strokes[i].options.stroke_width_ghost;
                self.strokes[i].options.stroke_width = scale_width(ghost_w, scale_stroke.x);
            }
            i = i + 1;
        }
    }

    /// How many of the first `n` strokes are selected and untrashed.
    pub open spec fn sel_count(self, n: int) -> int
        decreases n,
    {
        if n <= 0 {
            0
        } else {
            self.sel_count(n - 1) + if self.selected_rendered(n - 1) {
                1int
            } else {
                0int
            }
        }
    }

    /// Duplicates the selected strokes: each duplicate is appended selected,
    /// its original is deselected; returns the duplicates' keys, ascending.
    #[verifier::rlimit(60)]
    pub fn duplicate_selection(&mut self) -> (r: Vec<StrokeKey>)
        requires
            old(self).wf(),
        ensures
            final(self).n() == old(self).n() + old(self).sel_count(old(self).n()),
            forall|k: int|
                0 <= k < old(self).n() && !old(self).selected_rendered(k)
                    ==> #[trigger] final(self).strokes@[k] == old(self).strokes@[k],
            forall|k: int|
                0 <= k < old(self).n() && old(self).selected_rendered(k)
                    ==> #[trigger] final(self).strokes@[k] == (Stroke {
                    selected: false,
                    ..old(self).strokes@[k]
                }),
            r@.len() == old(self).sel_count(old(self).n()),
            forall|i: int|
                0 <= i < r@.len() ==> final(self).selected_rendered(#[trigger] r@[i] as int),
            forall|i: int| 0 <= i < r@.len() ==> #[trigger] r@[i] as int == old(self).n() + i,
            final(self).initial_size_selection == old(self).initial_size_selection,
            final(self).history_records == old(self).history_records,
            final(self).render_requests == old(self).render_requests,
            final(self).wf(),
    {
        let n: usize = self.strokes.len();
        let mut r: Vec<StrokeKey> = Vec::new();
        let mut i: usize = 0;
        while i < n
            invariant
                i <= n,
                n == old(self).strokes@.len(),
                old(self).wf(),
                self.strokes@.len() == n + old(self).sel_count(i as int),
                forall|k: int| i <= k < n ==> self.strokes@[k] == old(self).strokes@[k],
                forall|k: int|
                    0 <= k < i && !old(self).selected_rendered(k) ==> #[trigger] self.strokes@[k]
                        == old(self).strokes@[k],
                forall|k: int|
                    0 <= k < i && old(self).selected_rendered(k) ==> #[trigger] self.strokes@[k]
                        == (Stroke { selected: false, ..old(self).strokes@[k] }),
                r@.len() == old(self).sel_count(i as int),
                forall|j: int|
                    0 <= j < r@.len() ==> self.valid_key(#[trigger] r@[j] as int)
                        && self.strokes@[r@[j] as int].selected
                        && !self.strokes@[r@[j] as int].trashed,
                forall|j: int| 0 <= j < r@.len() ==> #[trigger] r@[j] as int == n + j,
                forall|k: int| 0 <= k < self.strokes@.len() ==> (#[trigger] self.strokes@[k]).wf(),
                self.initial_size_selection == old(self).initial_size_selection,
                self.history_records == old(self).history_records,
                self.render_requests == old(self).render_requests,
            decreases n - i,
        {
            if self.strokes[i].selected && !self.strokes[i].trashed {
                let dup_shape: Shape = duplicate_shape(&self.strokes[i].shape);
                let opts: SmoothOptions = self.strokes[i].options;
                self.strokes[i].selected = false;
                let key: usize = self.strokes.len();
                self.strokes.push(
                    Stroke { shape: dup_shape, options: opts, selected: true, trashed: false },
                );
                r.push(key);
            }
            i = i + 1;
        }
        r
    }

    /// Records a history checkpoint (an undo point).
    pub fn record(&mut self, now: u64) -> (r: WidgetFlags)
        requires
            old(self).wf(),
        ensures
            final(self).history_records as int == if old(self).history_records
                < 0xffff_ffff_ffff_ffffu64 {
                old(self).history_records as int + 1
            } else {
                old(self).history_records as int
            },
            final(self).strokes@ == old(self).strokes@,
            final(self).initial_size_selection == old(self).initial_size_selection,
            final(self).render_requests == old(self).render_requests,
            r == (WidgetFlags { refresh_ui: true, ..WidgetFlags::none_spec() }),
            final(self).wf(),
    {
        let _ = now;
        if self.history_records < 0xffff_ffff_ffff_ffffu64 {
            self.history_records = self.history_records + 1;
        }
        WidgetFlags { refresh_ui: true, ..WidgetFlags::none() }
    }

    /// Queues a threaded re-render of the viewport; fire and forget.
    pub fn regenerate_rendering_in_viewport_threaded(&mut self, viewport: Aabb)
        requires
            old(self).wf(),
        ensures
            final(self).render_requests as int == if old(self).render_requests
                < 0xffff_ffff_ffff_ffffu64 {
                old(self).render_requests as int + 1
            } else {
                old(self).render_requests as int
            },
            final(self).strokes@ == old(self).strokes@,
            final(self).initial_size_selection == old(self).initial_size_selection,
            final(self).history_records == old(self).history_records,
            final(self).wf(),
    {
        let _ = viewport;
        if self.render_requests < 0xffff_ffff_ffff_ffffu64 {
            self.render_requests = self.render_requests + 1;
        }
    }

    /// Queues a threaded re-render of the listed strokes; fire and forget.
    pub fn regenerate_rendering_for_strokes_threaded(
        &mut self,
        keys: &Vec<StrokeKey>,
        viewport: Aabb,
    )
        requires
            old(self).wf(),
        ensures
            final(self).render_requests as int == if old(self).render_requests
                < 0xffff_ffff_ffff_ffffu64 {
                old(self).render_requests as int + 1
            } else {
                old(self).render_requests as int
            },
            final(self).strokes@ == old(self).strokes@,
            final(self).initial_size_selection == old(self).initial_size_selection,
            final(self).history_records == old(self).history_records,
            final(self).wf(),
    {
        let _ = keys;
        let _ = viewport;
        if self.render_requests < 0xffff_ffff_ffff_ffffu64 {
            self.render_requests = self.render_requests + 1;
        }
    }
}

} // verus!
