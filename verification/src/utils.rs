//! Geometry and coordinate conversion.
//!
//! Two coordinate spaces are used.  *Physical* coordinates are raw device
//! pixels, the space in which the input hook reports positions and in which
//! polygon vertices are stored.  *Viewport* coordinates are fractions of the
//! physical screen width; they are represented exactly as rational numbers
//! (`Frac`), so conversions and comparisons carry no rounding surprises.

use vstd::prelude::*;

verus! {

use vstd::arithmetic::div_mod::lemma_fundamental_div_mod;

/// Physical coordinates and fraction parts are kept within this bound so
/// that every product formed by the geometry fits comfortably in 128 bits
/// and every scaled result fits in an `i64`.
pub const COORD_LIMIT: i64 = 0x8000_0000;

/// Stored polygon vertices may be as large as a scaled viewport coordinate
/// can get: `COORD_LIMIT * COORD_LIMIT`.  Cross products over such vertices
/// still fit in 128 bits.
pub const VERTEX_LIMIT: i64 = 0x4000_0000_0000_0000;

/// A rational number `num / den`, used for viewport coordinates
/// (fractions of the physical screen width).
#[derive(Clone, Copy, Debug, PartialEq, Eq, Structural)]
pub struct Frac {
    pub num: i64,
    pub den: i64,
}

impl Frac {
    /// Bounds under which all arithmetic on fractions stays exact.
    pub open spec fn wf(self) -> bool {
        &&& -COORD_LIMIT <= self.num <= COORD_LIMIT
        &&& 1 <= self.den <= COORD_LIMIT
    }

    pub fn new(num: i64, den: i64) -> (r: Frac)
        requires
            -COORD_LIMIT <= num <= COORD_LIMIT,
            1 <= den <= COORD_LIMIT,
        ensures
            r.num == num,
            r.den == den,
            r.wf(),
    {
        Frac { num, den }
    }

    /// Whether two fractions denote the same rational value,
    /// possibly with different denominators.
    pub open spec fn spec_same_value(self, other: Frac) -> bool {
        self.num * other.den == other.num * self.den
    }

    /// Value equality of two fractions (cross multiplication).
    pub fn same_value(&self, other: &Frac) -> (r: bool)
        requires
            self.wf(),
            other.wf(),
        ensures
            r == self.spec_same_value(*other),
    {
        proof {
            assert(-(0x8000_0000 * 0x8000_0000) <= (self.num as int) * (other.den as int) <= 0x8000_0000
                * 0x8000_0000 && -(0x8000_0000 * 0x8000_0000) <= (other.num as int) * (self.den as int)
                <= 0x8000_0000 * 0x8000_0000) by (nonlinear_arith)
                requires
                    -0x8000_0000 <= self.num as int <= 0x8000_0000,
                    -0x8000_0000 <= other.num as int <= 0x8000_0000,
                    1 <= self.den as int <= 0x8000_0000,
                    1 <= other.den as int <= 0x8000_0000,
            ;
        }
        let lhs: i128 = (self.num as i128) * (other.den as i128);
        let rhs: i128 = (other.num as i128) * (self.den as i128);
        lhs == rhs
    }
}

/// Clamp `v` into the interval `[0, hi]`.
pub open spec fn spec_clamp(v: int, hi: int) -> int {
    if v < 0 {
        0
    } else if v > hi {
        hi
    } else {
        v
    }
}

/// The physical position that the fraction `n / d` of a screen of width `w`
/// denotes, rounded towards zero.
pub open spec fn spec_scale(n: int, w: int, d: int) -> int {
    if n >= 0 {
        (n * w) / d
    } else {
        -((-n * w) / d)
    }
}

/// Coordinate conversion between physical pixels and viewport fractions,
/// driven by the physical width of the screen, captured once at startup.
///
/// All conversions are based on the physical pixel width of the screen, for
/// both axes, so that the two axes share one unit.
#[derive(Clone, Copy, Debug)]
pub struct Convert {
    pub width: i64,
}

impl Convert {
    pub open spec fn wf(self) -> bool {
        1 <= self.width <= COORD_LIMIT
    }

    pub fn new(width: i64) -> (c: Convert)
        requires
            1 <= width <= COORD_LIMIT,
        ensures
            c.width == width,
            c.wf(),
    {
        Convert { width }
    }

    /// Scale one viewport fraction to physical pixels.
    fn scale(f: Frac, width: i64) -> (r: i64)
        requires
            f.wf(),
            1 <= width <= COORD_LIMIT,
        ensures
            r == spec_scale(f.num as int, width as int, f.den as int),
            -COORD_LIMIT * COORD_LIMIT <= r <= COORD_LIMIT * COORD_LIMIT,
    {
        let n_abs: u128 = if f.num >= 0 {
            f.num as u128
        } else {
            (-(f.num as i128)) as u128
        };
        proof {
            assert((n_abs as int) * (width as int) <= 0x8000_0000 * 0x8000_0000)
                by (nonlinear_arith)
                requires
                    0 <= n_abs as int <= 0x8000_0000,
                    0 <= width as int <= 0x8000_0000,
            ;
        }
        let prod: u128 = n_abs * (width as u128);
        let q: u128 = prod / (f.den as u128);
        proof {
            lemma_fundamental_div_mod(prod as int, f.den as int);
            assert(q as int <= (q as int) * (f.den as int)) by (nonlinear_arith)
                requires
                    q as int >= 0,
                    f.den as int >= 1,
            ;
        }
        if f.num >= 0 {
            q as i64
        } else {
            -(q as i64)
        }
    }

    /// Convert a viewport position to physical pixels: multiply both axes
    /// by the physical width.  The result is not clamped; positions outside
    /// the screen are taken as given.
    pub fn from_viewport(&self, x: Frac, y: Frac) -> (r: (i64, i64))
        requires
            self.wf(),
            x.wf(),
            y.wf(),
        ensures
            r.0 == spec_scale(x.num as int, self.width as int, x.den as int),
            r.1 == spec_scale(y.num as int, self.width as int, y.den as int),
    {
        (Self::scale(x, self.width), Self::scale(y, self.width))
    }

    /// Convert a physical position to a viewport fraction of the screen
    /// width, clamped into `[0, 1]` on both axes.
    pub fn to_viewport(&self, x: i64, y: i64) -> (r: (Frac, Frac))
        requires
            self.wf(),
        ensures
            r.0.num == spec_clamp(x as int, self.width as int),
            r.0.den == self.width,
            r.1.num == spec_clamp(y as int, self.width as int),
            r.1.den == self.width,
            r.0.wf(),
            r.1.wf(),
    {
        (
            Frac { num: Self::clamp(x, self.width), den: self.width },
            Frac { num: Self::clamp(y, self.width), den: self.width },
        )
    }

    fn clamp(v: i64, hi: i64) -> (r: i64)
        requires
            hi >= 0,
        ensures
            r == spec_clamp(v as int, hi as int),
    {
        if v < 0 {
            0
        } else if v > hi {
            hi
        } else {
            v
        }
    }
}

/// Round trip of the coordinate conversion.  Converting a viewport
/// fraction in `[0, 1]` to physical pixels (`from_viewport`, that is
/// `spec_scale`) and back (`to_viewport`, that is `spec_clamp` over the
/// width) yields a fraction within one pixel of the given one:
/// `|back / width - num / den| < 1 / width` (stated cross-multiplied).
/// When the fraction's denominator is the width itself — as every fraction
/// produced by `to_viewport` has — the round trip is exact.
pub proof fn lemma_viewport_round_trip(f: Frac, width: int)
    requires
        f.wf(),
        1 <= width <= COORD_LIMIT as int,
        0 <= f.num <= f.den,
    ensures
        ({
            let phys = spec_scale(f.num as int, width, f.den as int);
            let back = spec_clamp(phys, width);
            &&& back == phys
            &&& -(f.den as int) < back * (f.den as int) - (f.num as int) * width < f.den as int
            &&& f.den == width ==> back == f.num
        }),
{
    let n = f.num as int;
    let d = f.den as int;
    let phys = spec_scale(n, width, d);
    assert(n * width >= 0) by (nonlinear_arith)
        requires
            n >= 0,
            width >= 1,
    ;
    lemma_fundamental_div_mod(n * width, d);
    let rem = (n * width) % d;
    assert(0 <= rem < d);
    assert(n * width == d * phys + rem);
    assert(phys >= 0) by (nonlinear_arith)
        requires
            n * width >= 0,
            n * width == d * phys + rem,
            0 <= rem < d,
            d >= 1,
    ;
    assert(n * width <= d * width) by (nonlinear_arith)
        requires
            n <= d,
            width >= 1,
    ;
    assert(phys <= width) by (nonlinear_arith)
        requires
            n * width <= d * width,
            n * width == d * phys + rem,
            rem >= 0,
            d >= 1,
    ;
    assert(phys * d - n * width == -rem) by (nonlinear_arith)
        requires
            n * width == d * phys + rem,
    ;
    if f.den == width {
        assert(phys == n) by (nonlinear_arith)
            requires
                -d < phys * d - n * d <= 0,
                d >= 1,
        ;
    }
}

/// One edge of the ray-casting test: whether the horizontal ray from `p`
/// (biased infinitesimally to the left, so that a point exactly on an edge
/// is decided deterministically) crosses the edge from `a` to `b`.
pub open spec fn spec_edge_crosses(a: (i64, i64), b: (i64, i64), p: (i64, i64)) -> bool {
    let ax = a.0 as int;
    let ay = a.1 as int;
    let bx = b.0 as int;
    let by = b.1 as int;
    let px = p.0 as int;
    let py = p.1 as int;
    &&& ((ay > py) != (by > py))
    &&& if by - ay > 0 {
        (px - ax) * (by - ay) < (bx - ax) * (py - ay)
    } else {
        (px - ax) * (by - ay) > (bx - ax) * (py - ay)
    }
}

/// Parity of ray crossings over the first `k` edges of the polygon,
/// where edge `i` runs from vertex `i` to vertex `(i + 1) % len`.
pub open spec fn spec_crossings_up_to(poly: Seq<(i64, i64)>, p: (i64, i64), k: int) -> bool
    decreases k,
{
    if k <= 0 {
        false
    } else {
        spec_crossings_up_to(poly, p, k - 1) != spec_edge_crosses(
            poly[k - 1],
            poly[(k - 1 + 1) % (poly.len() as int)],
            p,
        )
    }
}

/// Ray-casting point-in-polygon test: `p` is inside iff a horizontal ray
/// from `p` crosses the polygon's boundary an odd number of times.
/// An empty or degenerate polygon contains nothing.
pub open spec fn spec_point_in_polygon(poly: Seq<(i64, i64)>, p: (i64, i64)) -> bool {
    spec_crossings_up_to(poly, p, poly.len() as int)
}

/// On an axis-aligned rectangle with corners `(0,0)`, `(w,0)`, `(w,h)`,
/// `(0,h)`, the ray-casting test means exactly membership in the half-open
/// box `[0, w) x [0, h)`: interior points are inside, points beyond the
/// right or top edge are outside, and the boundary is decided by the test's
/// fixed bias, deterministically.
pub proof fn lemma_rectangle_containment(w: i64, h: i64, p: (i64, i64))
    requires
        0 < w <= VERTEX_LIMIT,
        0 < h <= VERTEX_LIMIT,
        -COORD_LIMIT <= p.0 <= COORD_LIMIT,
        -COORD_LIMIT <= p.1 <= COORD_LIMIT,
    ensures
        ({
            let rect = seq![(0i64, 0i64), (w, 0i64), (w, h), (0i64, h)];
            spec_point_in_polygon(rect, p) <==> (0 <= p.0 < w && 0 <= p.1 < h)
        }),
{
    let rect = seq![(0i64, 0i64), (w, 0i64), (w, h), (0i64, h)];
    let px = p.0 as int;
    let py = p.1 as int;
    // The two horizontal edges never straddle the ray.
    assert(!spec_edge_crosses(rect[0], rect[1], p));
    assert(!spec_edge_crosses(rect[2], rect[3], p));
    // The right edge, rising: crosses exactly when the ray passes it.
    assert(spec_edge_crosses(rect[1], rect[2], p) <==> (0 <= py < h && px < w)) by {
        if (0 > py) != (h > py) {
            assert(spec_edge_crosses(rect[1], rect[2], p) == ((px - w) * h < 0 * (py - 0)));
            assert((px - w) * h < 0 <==> px < w) by (nonlinear_arith)
                requires
                    h > 0,
            ;
        }
    }
    // The left edge, falling: crosses exactly when the point is left of it.
    assert(spec_edge_crosses(rect[3], rect[0], p) <==> (0 <= py < h && px < 0)) by {
        if (h > py) != (0 > py) {
            assert(spec_edge_crosses(rect[3], rect[0], p) == (px * (0 - h) > 0 * (py - h)));
            assert(px * (0 - h) > 0 <==> px < 0) by (nonlinear_arith)
                requires
                    h > 0,
            ;
        }
    }
    assert(rect.len() == 4);
    assert(spec_crossings_up_to(rect, p, 0) == false);
    assert(spec_crossings_up_to(rect, p, 1) == spec_edge_crosses(rect[0], rect[1], p));
    assert(spec_crossings_up_to(rect, p, 2) == (spec_crossings_up_to(rect, p, 1)
        != spec_edge_crosses(rect[1], rect[2], p)));
    assert(spec_crossings_up_to(rect, p, 3) == (spec_crossings_up_to(rect, p, 2)
        != spec_edge_crosses(rect[2], rect[3], p)));
    assert(spec_point_in_polygon(rect, p) == (spec_crossings_up_to(rect, p, 3)
        != spec_edge_crosses(rect[3], rect[0], p)));
}

/// Exact ray-casting test over the polygon's vertices, in physical pixels.
/// Holds for empty and degenerate polygons (no crossing is ever counted on
/// a horizontal edge) and for concave ones.
pub fn is_point_in_polygon(polygon: &Vec<(i64, i64)>, point: (i64, i64)) -> (r: bool)
    requires
        forall|i: int| 0 <= i < polygon@.len() ==> (#[trigger] polygon@[i]).0 <= VERTEX_LIMIT
            && -VERTEX_LIMIT <= polygon@[i].0 && -VERTEX_LIMIT <= polygon@[i].1 && polygon@[i].1
            <= VERTEX_LIMIT,
        -COORD_LIMIT <= point.0 <= COORD_LIMIT,
        -COORD_LIMIT <= point.1 <= COORD_LIMIT,
    ensures
        r == spec_point_in_polygon(polygon@, point),
{
    let mut inside = false;
    let n = polygon.len();
    let mut i: usize = 0;
    while i < n
        invariant
            n == polygon@.len(),
            0 <= i <= n,
            inside == spec_crossings_up_to(polygon@, point, i as int),
            forall|k: int| 0 <= k < polygon@.len() ==> (#[trigger] polygon@[k]).0 <= VERTEX_LIMIT
                && -VERTEX_LIMIT <= polygon@[k].0 && -VERTEX_LIMIT <= polygon@[k].1 && polygon@[k].1
                <= VERTEX_LIMIT,
            -COORD_LIMIT <= point.0 <= COORD_LIMIT,
            -COORD_LIMIT <= point.1 <= COORD_LIMIT,
        decreases n - i,
    {
        let j = (i + 1) % n;
        let a = polygon[i];
        let b = polygon[j];
        if edge_crosses(a, b, point) {
            inside = !inside;
        }
        i = i + 1;
    }
    inside
}

/// Exact crossing test for one edge, by cross multiplication in 128 bits.
fn edge_crosses(a: (i64, i64), b: (i64, i64), p: (i64, i64)) -> (r: bool)
    requires
        -VERTEX_LIMIT <= a.0 <= VERTEX_LIMIT,
        -VERTEX_LIMIT <= a.1 <= VERTEX_LIMIT,
        -VERTEX_LIMIT <= b.0 <= VERTEX_LIMIT,
        -VERTEX_LIMIT <= b.1 <= VERTEX_LIMIT,
        -COORD_LIMIT <= p.0 <= COORD_LIMIT,
        -COORD_LIMIT <= p.1 <= COORD_LIMIT,
    ensures
        r == spec_edge_crosses(a, b, p),
{
    let straddles = (a.1 > p.1) != (b.1 > p.1);
    if !straddles {
        return false;
    }
    let dx: i128 = (b.0 as i128) - (a.0 as i128);
    let dy: i128 = (b.1 as i128) - (a.1 as i128);
    let rx: i128 = (p.0 as i128) - (a.0 as i128);
    let ry: i128 = (p.1 as i128) - (a.1 as i128);
    proof {
        let bound: int = 0x8000_0000_0000_0000;
        assert(-(bound * bound) <= rx * dy <= bound * bound && -(bound * bound) <= dx * ry <= bound
            * bound) by (nonlinear_arith)
            requires
                bound == 0x8000_0000_0000_0000,
                -bound <= rx <= bound,
                -bound <= dy <= bound,
                -bound <= dx <= bound,
                -bound <= ry <= bound,
        ;
    }
    if dy > 0 {
        rx * dy < dx * ry
    } else {
        rx * dy > dx * ry
    }
}

} // verus!
