//! A single named overlay region: an ordered vertex list in physical
//! pixels, a visibility flag, and a transient cursor-containment flag.

use vstd::prelude::*;

verus! {

use crate::utils::VERTEX_LIMIT;
use vstd::string::StringExecFns;

/// Identifier of a polygon, unique within the registry for its lifetime.
pub type PolygonId = String;

/// Mathematical content of one polygon.  The identifier is carried
/// separately, as the key under which the registry holds the model.
pub ghost struct PolygonModel {
    pub points: Seq<(i64, i64)>,
    pub display: bool,
    pub cursor_in: bool,
}

impl PolygonModel {
    /// The placeholder geometry a polygon is created with: three points at
    /// the origin, hidden, cursor not inside.
    pub open spec fn default_model() -> PolygonModel {
        PolygonModel {
            points: seq![(0i64, 0i64), (0i64, 0i64), (0i64, 0i64)],
            display: false,
            cursor_in: false,
        }
    }

    /// All vertices within the bounds the hit test can handle.
    pub open spec fn wf(self) -> bool {
        forall|i: int| 0 <= i < self.points.len() ==> (#[trigger] self.points[i]).0
            <= VERTEX_LIMIT && -VERTEX_LIMIT <= self.points[i].0 && -VERTEX_LIMIT
            <= self.points[i].1 && self.points[i].1 <= VERTEX_LIMIT
    }
}

/// A named overlay region.  The vertex list is replaced only as a whole,
/// so a reader never observes a partially updated list.
#[derive(Debug)]
pub struct Polygon {
    pub id: PolygonId,
    pub points: Vec<(i64, i64)>,
    pub display: bool,
    pub cursor_in: bool,
}

/// Whether every coordinate of `points` is within the hit test's bounds.
pub open spec fn points_bounded(points: Seq<(i64, i64)>) -> bool {
    forall|i: int| 0 <= i < points.len() ==> (#[trigger] points[i]).0 <= VERTEX_LIMIT
        && -VERTEX_LIMIT <= points[i].0 && -VERTEX_LIMIT <= points[i].1 && points[i].1
        <= VERTEX_LIMIT
}

/// Copy a vertex list.
fn copy_points(src: &Vec<(i64, i64)>) -> (r: Vec<(i64, i64)>)
    ensures
        r@ == src@,
{
    let mut r: Vec<(i64, i64)> = Vec::new();
    let mut i: usize = 0;
    while i < src.len()
        invariant
            0 <= i <= src@.len(),
            r@ == src@.subrange(0, i as int),
        decreases src@.len() - i,
    {
        r.push(src[i]);
        i = i + 1;
        assert(r@ =~= src@.subrange(0, i as int));
    }
    assert(r@ =~= src@);
    r
}

impl View for Polygon {
    type V = PolygonModel;

    open spec fn view(&self) -> PolygonModel {
        PolygonModel { points: self.points@, display: self.display, cursor_in: self.cursor_in }
    }
}

impl Polygon {
    /// Create a polygon with the given vertices, hidden and without the
    /// cursor inside.
    pub fn new(id: &str, points: &Vec<(i64, i64)>) -> (p: Polygon)
        requires
            points_bounded(points@),
        ensures
            p.id@ == id@,
            p@.points == points@,
            p@.display == false,
            p@.cursor_in == false,
            p@.wf(),
    {
        Polygon {
            id: String::from_str(id),
            points: copy_points(points),
            display: false,
            cursor_in: false,
        }
    }

    /// Create a polygon with the default placeholder geometry: three
    /// points at the origin.
    pub fn default(id: &str) -> (p: Polygon)
        ensures
            p.id@ == id@,
            p@ == PolygonModel::default_model(),
            p@.wf(),
    {
        let mut points: Vec<(i64, i64)> = Vec::new();
        points.push((0, 0));
        points.push((0, 0));
        points.push((0, 0));
        let p = Polygon::new(id, &points);
        assert(p@.points =~= PolygonModel::default_model().points);
        p
    }

    /// The polygon's identifier.
    pub fn id(&self) -> (r: &str)
        ensures
            r@ == self.id@,
    {
        self.id.as_str()
    }

    /// Replace the whole vertex list; the previous list is released.
    pub fn set_points(&mut self, points: &Vec<(i64, i64)>)
        requires
            points_bounded(points@),
        ensures
            final(self)@.points == points@,
            final(self)@.display == old(self)@.display,
            final(self)@.cursor_in == old(self)@.cursor_in,
            final(self).id@ == old(self).id@,
            final(self)@.wf(),
    {
        self.points = copy_points(points);
    }

    /// A snapshot of the current vertex list.
    pub fn points(&self) -> (r: Vec<(i64, i64)>)
        ensures
            r@ == self@.points,
    {
        copy_points(&self.points)
    }

    /// Stop displaying the polygon.
    pub fn conceal(&mut self)
        ensures
            final(self)@ == (PolygonModel { display: false, ..old(self)@ }),
            final(self).id@ == old(self).id@,
    {
        self.display = false;
    }

    /// Start displaying the polygon.
    pub fn show(&mut self)
        ensures
            final(self)@ == (PolygonModel { display: true, ..old(self)@ }),
            final(self).id@ == old(self).id@,
    {
        self.display = true;
    }

    /// Record whether the cursor is currently inside the polygon.
    pub fn set_cursor_in(&mut self, in_polygon: bool)
        ensures
            final(self)@ == (PolygonModel { cursor_in: in_polygon, ..old(self)@ }),
            final(self).id@ == old(self).id@,
    {
        self.cursor_in = in_polygon;
    }

    /// Whether the cursor was inside the polygon at the last mouse move.
    pub fn cursor_in(&self) -> (r: bool)
        ensures
            r == self@.cursor_in,
    {
        self.cursor_in
    }

    /// Whether the polygon is currently displayed.
    pub fn display(&self) -> (r: bool)
        ensures
            r == self@.display,
    {
        self.display
    }
}

} // verus!
