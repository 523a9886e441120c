//! Raising a quadratic curve to the cubic that traces the same points.

use crate::number::{two_thirds, two_thirds_of};
use vstd::prelude::*;

verus! {

/// A point of the plane.
#[derive(Clone, Copy, Debug, PartialEq, Eq, Structural)]
pub struct Point {
    pub x: i64,
    pub y: i64,
}

/// The coordinate two thirds of the way from `from` to `toward`.
pub open spec fn raised(from: int, toward: int) -> int {
    from + two_thirds(toward - from)
}

/// The cubic for the quadratic with start `p0`, control `p1` and end `p2`:
/// the same ends, and each control point two thirds of the way from its end
/// to `p1`.
pub open spec fn elevated(p0: Point, p1: Point, p2: Point) -> (Point, Point, Point, Point) {
    (
        p0,
        Point { x: raised(p0.x as int, p1.x as int) as i64, y: raised(p0.y as int, p1.y as int) as i64 },
        Point { x: raised(p2.x as int, p1.x as int) as i64, y: raised(p2.y as int, p1.y as int) as i64 },
        p2,
    )
}

/// Eight times the coordinate of a quadratic curve at its middle parameter.
pub open spec fn quadratic_middle_8(a: int, b: int, c: int) -> int {
    2 * (a + 2 * b + c)
}

/// Eight times the coordinate of a cubic curve at its middle parameter.
pub open spec fn cubic_middle_8(a: int, b: int, c: int, d: int) -> int {
    a + 3 * b + 3 * c + d
}

/// A raised coordinate lies between the two it was made from, so it can be
/// held wherever they can.
pub proof fn lemma_raised_between(from: int, toward: int)
    ensures
        from <= toward ==> from <= raised(from, toward) <= toward,
        toward <= from ==> toward <= raised(from, toward) <= from,
{
}

/// The raised control coordinates miss the exact two thirds by less than one
/// step each, and hit it where the distance is a multiple of three.
pub proof fn lemma_raised_error(from: int, toward: int)
    ensures
        -2 <= 3 * raised(from, toward) - (from + 2 * toward) <= 2,
        (toward - from) % 3 == 0 ==> 3 * raised(from, toward) == from + 2 * toward,
{
}

/// Along one axis, the cubic made from a quadratic starts and ends where
/// the quadratic does, and at the middle parameter the two are at most half
/// a step apart: eight times their coordinates differ by at most four. Where
/// both distances to the control point are multiples of three, they agree.
pub proof fn lemma_elevation_agrees(a: int, b: int, c: int)
    ensures
        -4 <= cubic_middle_8(a, raised(a, b), raised(c, b), c) - quadratic_middle_8(a, b, c) <= 4,
        (b - a) % 3 == 0 && (b - c) % 3 == 0 ==> cubic_middle_8(a, raised(a, b), raised(c, b), c)
            == quadratic_middle_8(a, b, c),
{
    lemma_raised_error(a, b);
    lemma_raised_error(c, b);
}

/// The elevated cubic keeps the ends of the quadratic, and its middle point
/// is within half a step of the quadratic's on each axis.
pub proof fn lemma_elevated_agrees(p0: Point, p1: Point, p2: Point)
    ensures
        ({
            let q = elevated(p0, p1, p2);
            &&& q.0 == p0
            &&& q.3 == p2
            &&& -4 <= cubic_middle_8(q.0.x as int, q.1.x as int, q.2.x as int, q.3.x as int)
                - quadratic_middle_8(p0.x as int, p1.x as int, p2.x as int) <= 4
            &&& -4 <= cubic_middle_8(q.0.y as int, q.1.y as int, q.2.y as int, q.3.y as int)
                - quadratic_middle_8(p0.y as int, p1.y as int, p2.y as int) <= 4
        }),
{
    lemma_raised_between(p0.x as int, p1.x as int);
    lemma_raised_between(p2.x as int, p1.x as int);
    lemma_raised_between(p0.y as int, p1.y as int);
    lemma_raised_between(p2.y as int, p1.y as int);
    lemma_elevation_agrees(p0.x as int, p1.x as int, p2.x as int);
    lemma_elevation_agrees(p0.y as int, p1.y as int, p2.y as int);
}

fn raise(from: i64, toward: i64) -> (r: i64)
    ensures
        r == raised(from as int, toward as int),
{
    let d: i128 = toward as i128 - from as i128;
    let r: i128 = from as i128 + two_thirds_of(d);
    proof {
        lemma_raised_between(from as int, toward as int);
    }
    r as i64
}

/// Turns the quadratic curve from `p0` to `p2` with control point `p1` into
/// a cubic curve, given as its start, its two control points and its end.
pub fn quadratic_to_cubic(p0: Point, p1: Point, p2: Point) -> (q: (Point, Point, Point, Point))
    ensures
        q == elevated(p0, p1, p2),
{
    let q1 = Point { x: raise(p0.x, p1.x), y: raise(p0.y, p1.y) };
    let q2 = Point { x: raise(p2.x, p1.x), y: raise(p2.y, p1.y) };
    (p0, q1, q2, p2)
}

} // verus!
