//! Plane geometry on an integer grid: points, displacements and affine maps.
//!
//! Coordinates are `i64`. An operation whose exact result leaves that range
//! gives the nearest end of the range instead, so every operation is total.
//! The exact, unbounded arithmetic behind each operation is spelled out by
//! [`Affine`], and the laws of composition are proved about it.

use vstd::prelude::*;

verus! {

/// The coordinate nearest to `v`.
pub open spec fn clamp(v: int) -> i64 {
    if v < i64::MIN {
        i64::MIN
    } else if v > i64::MAX {
        i64::MAX
    } else {
        v as i64
    }
}

/// Whether `v` is a coordinate as it stands.
pub open spec fn fits(v: int) -> bool {
    i64::MIN <= v <= i64::MAX
}

/// A position on the grid.
#[derive(Clone, Copy, PartialEq, Eq, Debug, Structural)]
pub struct Point2 {
    pub x: i64,
    pub y: i64,
}

/// A displacement between two positions.
#[derive(Clone, Copy, PartialEq, Eq, Debug, Structural)]
pub struct Vector2 {
    pub x: i64,
    pub y: i64,
}

/// An affine map of the plane in exact arithmetic:
/// `(x, y)` goes to `(m11 x + m12 y + m13, m21 x + m22 y + m23)`.
pub struct Affine {
    pub m11: int,
    pub m12: int,
    pub m13: int,
    pub m21: int,
    pub m22: int,
    pub m23: int,
}

/// An affine map of the grid, held as the two upper rows of its matrix.
#[derive(Clone, Copy, PartialEq, Eq, Debug, Structural)]
pub struct Transform2 {
    pub m11: i64,
    pub m12: i64,
    pub m13: i64,
    pub m21: i64,
    pub m22: i64,
    pub m23: i64,
}

fn narrow(v: i128) -> (r: i64)
    ensures
        r == clamp(v as int),
{
    if v > i64::MAX as i128 {
        i64::MAX
    } else if v < i64::MIN as i128 {
        i64::MIN
    } else {
        v as i64
    }
}

proof fn lemma_product_bounds(a: i64, x: i64)
    ensures
        -0x4000_0000_0000_0000_0000_0000_0000_0000 <= a * x
            <= 0x4000_0000_0000_0000_0000_0000_0000_0000,
{
    assert(-0x4000_0000_0000_0000_0000_0000_0000_0000 <= a * x
        <= 0x4000_0000_0000_0000_0000_0000_0000_0000) by (nonlinear_arith)
        requires
            -0x8000_0000_0000_0000 <= a <= 0x7fff_ffff_ffff_ffff,
            -0x8000_0000_0000_0000 <= x <= 0x7fff_ffff_ffff_ffff,
    ;
}

/// `a x + b y + c`, brought back into the coordinate range.
fn affine_row(a: i64, x: i64, b: i64, y: i64, c: i64) -> (r: i64)
    ensures
        r == clamp(a * x + b * y + c),
{
    proof {
        lemma_product_bounds(a, x);
        lemma_product_bounds(b, y);
    }
    let first: i128 = (a as i128) * (x as i128);
    let second: i128 = (b as i128) * (y as i128);
    let partial: i128 = first + (c as i128);
    if second > 0 && partial > i128::MAX - second {
        i64::MAX
    } else if second < 0 && partial < i128::MIN - second {
        i64::MIN
    } else {
        narrow(partial + second)
    }
}

impl Vector2 {
    pub fn new(x: i64, y: i64) -> (v: Self)
        ensures
            v == (Vector2 { x, y }),
    {
        Vector2 { x, y }
    }

    /// The displacement that moves nothing.
    pub fn zeros() -> (v: Self)
        ensures
            v == (Vector2 { x: 0, y: 0 }),
    {
        Vector2 { x: 0, y: 0 }
    }
}

impl Point2 {
    pub fn new(x: i64, y: i64) -> (p: Self)
        ensures
            p == (Point2 { x, y }),
    {
        Point2 { x, y }
    }

    /// This point moved by `by`.
    pub open spec fn moved(self, by: Vector2) -> Point2 {
        Point2 { x: clamp(self.x + by.x), y: clamp(self.y + by.y) }
    }

    pub fn translate(self, by: Vector2) -> (p: Self)
        ensures
            p == self.moved(by),
    {
        Point2 {
            x: narrow(self.x as i128 + by.x as i128),
            y: narrow(self.y as i128 + by.y as i128),
        }
    }
}

impl Affine {
    /// The map that leaves every point where it is.
    pub open spec fn identity() -> Affine {
        Affine { m11: 1, m12: 0, m13: 0, m21: 0, m22: 1, m23: 0 }
    }

    /// Where `(x, y)` goes.
    pub open spec fn at(self, x: int, y: int) -> (int, int) {
        (self.m11 * x + self.m12 * y + self.m13, self.m21 * x + self.m22 * y + self.m23)
    }

    /// The map that applies `inner` first and `self` to what comes out.
    pub open spec fn after(self, inner: Affine) -> Affine {
        Affine {
            m11: self.m11 * inner.m11 + self.m12 * inner.m21,
            m12: self.m11 * inner.m12 + self.m12 * inner.m22,
            m13: self.m11 * inner.m13 + self.m12 * inner.m23 + self.m13,
            m21: self.m21 * inner.m11 + self.m22 * inner.m21,
            m22: self.m21 * inner.m12 + self.m22 * inner.m22,
            m23: self.m21 * inner.m13 + self.m22 * inner.m23 + self.m23,
        }
    }
}

impl View for Transform2 {
    type V = Affine;

    open spec fn view(&self) -> Affine {
        Affine {
            m11: self.m11 as int,
            m12: self.m12 as int,
            m13: self.m13 as int,
            m21: self.m21 as int,
            m22: self.m22 as int,
            m23: self.m23 as int,
        }
    }
}

impl Transform2 {
    /// Where `p` goes: the exact image, each coordinate brought back into range.
    pub open spec fn apply(self, p: Point2) -> Point2 {
        let (x, y) = self@.at(p.x as int, p.y as int);
        Point2 { x: clamp(x), y: clamp(y) }
    }

    /// Whether the exact image of `p` lies on the grid.
    pub open spec fn exact_on(self, p: Point2) -> bool {
        let (x, y) = self@.at(p.x as int, p.y as int);
        fits(x) && fits(y)
    }

    /// `self` after `inner`, each entry brought back into range.
    pub open spec fn composed(self, inner: Transform2) -> Transform2 {
        let m = self@.after(inner@);
        Transform2 {
            m11: clamp(m.m11),
            m12: clamp(m.m12),
            m13: clamp(m.m13),
            m21: clamp(m.m21),
            m22: clamp(m.m22),
            m23: clamp(m.m23),
        }
    }

    /// Whether every entry of the exact composition is a coordinate.
    pub open spec fn composes_exactly(self, inner: Transform2) -> bool {
        let m = self@.after(inner@);
        fits(m.m11) && fits(m.m12) && fits(m.m13) && fits(m.m21) && fits(m.m22) && fits(m.m23)
    }

    pub fn new(m11: i64, m12: i64, m13: i64, m21: i64, m22: i64, m23: i64) -> (t: Self)
        ensures
            t == (Transform2 { m11, m12, m13, m21, m22, m23 }),
    {
        Transform2 { m11, m12, m13, m21, m22, m23 }
    }

    pub fn identity() -> (t: Self)
        ensures
            t@ == Affine::identity(),
            forall|p: Point2| #[trigger] t.apply(p) == p,
    {
        Transform2 { m11: 1, m12: 0, m13: 0, m21: 0, m22: 1, m23: 0 }
    }

    /// The map that moves every point by `(x, y)`.
    pub fn translation(x: i64, y: i64) -> (t: Self)
        ensures
            t == (Transform2 { m11: 1, m12: 0, m13: x, m21: 0, m22: 1, m23: y }),
            forall|p: Point2| #[trigger] t.apply(p) == p.moved(Vector2 { x, y }),
    {
        Transform2 { m11: 1, m12: 0, m13: x, m21: 0, m22: 1, m23: y }
    }

    /// The map that stretches the axes by `x` and `y` about the origin.
    pub fn scaling(x: i64, y: i64) -> (t: Self)
        ensures
            t == (Transform2 { m11: x, m12: 0, m13: 0, m21: 0, m22: y, m23: 0 }),
            forall|p: Point2|
                #[trigger] t.apply(p) == (Point2 { x: clamp(x * p.x), y: clamp(y * p.y) }),
    {
        Transform2 { m11: x, m12: 0, m13: 0, m21: 0, m22: y, m23: 0 }
    }

    /// The quarter turn about the origin that takes the x axis to the y axis.
    pub fn quarter_turn() -> (t: Self)
        ensures
            t == (Transform2 { m11: 0, m12: -1i64, m13: 0, m21: 1, m22: 0, m23: 0 }),
            forall|p: Point2| #[trigger] t.apply(p) == (Point2 { x: clamp(-(p.y as int)), y: p.x }),
    {
        let t = Transform2 { m11: 0, m12: -1, m13: 0, m21: 1, m22: 0, m23: 0 };
        assert forall|p: Point2| #[trigger]
            t.apply(p) == (Point2 { x: clamp(-(p.y as int)), y: p.x }) by {
            assert(t@.m12 == -1);
            assert(t@.at(p.x as int, p.y as int) == (-(p.y as int), p.x as int));
        }
        t
    }

    pub fn transform_point(&self, p: Point2) -> (q: Point2)
        ensures
            q == self.apply(p),
    {
        Point2 {
            x: affine_row(self.m11, p.x, self.m12, p.y, self.m13),
            y: affine_row(self.m21, p.x, self.m22, p.y, self.m23),
        }
    }

    /// The map that applies `inner` first and `self` to what comes out.
    pub fn compose(&self, inner: &Transform2) -> (t: Transform2)
        ensures
            t == self.composed(*inner),
    {
        Transform2 {
            m11: affine_row(self.m11, inner.m11, self.m12, inner.m21, 0),
            m12: affine_row(self.m11, inner.m12, self.m12, inner.m22, 0),
            m13: affine_row(self.m11, inner.m13, self.m12, inner.m23, self.m13),
            m21: affine_row(self.m21, inner.m11, self.m22, inner.m21, 0),
            m22: affine_row(self.m21, inner.m12, self.m22, inner.m22, 0),
            m23: affine_row(self.m21, inner.m13, self.m22, inner.m23, self.m23),
        }
    }
}

/// The identity map moves no point.
pub proof fn lemma_identity_fixes(x: int, y: int)
    ensures
        Affine::identity().at(x, y) == (x, y),
{
    let m = Affine::identity();
    assert(m.m11 * x + m.m12 * y + m.m13 == x);
    assert(m.m21 * x + m.m22 * y + m.m23 == y);
}

/// The identity map is neutral for composition on either side.
pub proof fn lemma_identity_neutral(m: Affine)
    ensures
        Affine::identity().after(m) == m,
        m.after(Affine::identity()) == m,
{
}

proof fn lemma_spread(a: int, y: int, z: int)
    ensures
        a * (y + z) == a * y + a * z,
        (y + z) * a == y * a + z * a,
{
    assert(a * (y + z) == a * y + a * z) by (nonlinear_arith);
    assert((y + z) * a == y * a + z * a) by (nonlinear_arith);
}

proof fn lemma_regroup(a: int, b: int, c: int)
    ensures
        (a * b) * c == a * (b * c),
{
    assert((a * b) * c == a * (b * c)) by (nonlinear_arith);
}

/// One entry of a product of two maps, seen from either side.
proof fn lemma_entry(a: int, b: int, p: int, q: int, c: int, r: int, s: int, d: int, e: int, f: int)
    ensures
        (a * p + b * q) * c + (a * r + b * s) * d + (a * e + b * f) == a * (p * c + r * d + e) + b
            * (q * c + s * d + f),
{
    lemma_spread(c, a * p, b * q);
    lemma_spread(d, a * r, b * s);
    lemma_regroup(a, p, c);
    lemma_regroup(b, q, c);
    lemma_regroup(a, r, d);
    lemma_regroup(b, s, d);
    lemma_spread(a, p * c + r * d, e);
    lemma_spread(a, p * c, r * d);
    lemma_spread(b, q * c + s * d, f);
    lemma_spread(b, q * c, s * d);
}

/// Mapping a point by `inner` and the image by `outer` is mapping it once by
/// `outer.after(inner)`.
pub proof fn lemma_after_is_nesting(outer: Affine, inner: Affine, x: int, y: int)
    ensures
        outer.after(inner).at(x, y) == outer.at(inner.at(x, y).0, inner.at(x, y).1),
{
    lemma_entry(
        outer.m11, outer.m12, inner.m11, inner.m21, x, inner.m12, inner.m22, y, inner.m13,
        inner.m23,
    );
    lemma_entry(
        outer.m21, outer.m22, inner.m11, inner.m21, x, inner.m12, inner.m22, y, inner.m13,
        inner.m23,
    );
}

/// Composition is associative: three maps compose to the same map however
/// they are grouped.
pub proof fn lemma_after_associative(a: Affine, b: Affine, c: Affine)
    ensures
        a.after(b).after(c) == a.after(b.after(c)),
{
    lemma_entry(a.m11, a.m12, b.m11, b.m21, c.m11, b.m12, b.m22, c.m21, 0, 0);
    lemma_entry(a.m11, a.m12, b.m11, b.m21, c.m12, b.m12, b.m22, c.m22, 0, 0);
    lemma_entry(a.m11, a.m12, b.m11, b.m21, c.m13, b.m12, b.m22, c.m23, b.m13, b.m23);
    lemma_entry(a.m21, a.m22, b.m11, b.m21, c.m11, b.m12, b.m22, c.m21, 0, 0);
    lemma_entry(a.m21, a.m22, b.m11, b.m21, c.m12, b.m12, b.m22, c.m22, 0, 0);
    lemma_entry(a.m21, a.m22, b.m11, b.m21, c.m13, b.m12, b.m22, c.m23, b.m13, b.m23);
}

/// On the grid, mapping a point by `inner` and the image by `outer` gives the
/// point that the composed transform gives, as long as neither the image under
/// `inner` nor an entry of the composition had to be brought back into range.
pub proof fn lemma_compose_is_nesting(outer: Transform2, inner: Transform2, p: Point2)
    requires
        inner.exact_on(p),
        outer.composes_exactly(inner),
    ensures
        outer.composed(inner)@ == outer@.after(inner@),
        outer.composed(inner).apply(p) == outer.apply(inner.apply(p)),
{
    lemma_after_is_nesting(outer@, inner@, p.x as int, p.y as int);
}

/// On the grid, three transforms compose to the same transform however they
/// are grouped, as long as no entry of a composition had to be brought back
/// into range.
pub proof fn lemma_compose_associative(a: Transform2, b: Transform2, c: Transform2)
    requires
        a.composes_exactly(b),
        b.composes_exactly(c),
        a.composed(b).composes_exactly(c),
        a.composes_exactly(b.composed(c)),
    ensures
        a.composed(b).composed(c) == a.composed(b.composed(c)),
{
    lemma_after_associative(a@, b@, c@);
}

} // verus!
