//! Path segments, paths, and the affine maps that place them.

use crate::number::{in_range, scale, scaled};
use vstd::prelude::*;

verus! {

/// One drawing primitive. Curves name their control points first and their
/// end point last.
#[derive(Clone, Copy, Debug, PartialEq, Eq, Structural)]
pub enum PathSegment {
    MoveTo(i64, i64),
    LineTo(i64, i64),
    QuadTo(i64, i64, i64, i64),
    CubicTo(i64, i64, i64, i64, i64, i64),
    Close,
}

/// A translation after a scaling of each axis by a ratio: `x` goes to
/// `tx + x * sx / den`, `y` to `ty + y * sy / den`, each product rounded
/// toward zero.
#[derive(Clone, Copy, Debug, PartialEq, Eq, Structural)]
pub struct Transform {
    pub tx: i64,
    pub ty: i64,
    pub sx: i64,
    pub sy: i64,
    pub den: i64,
}

impl Transform {
    /// A transform is usable when its ratios have a positive denominator.
    pub open spec fn wf(self) -> bool {
        self.den > 0
    }

    pub open spec fn map_x(self, x: int) -> int {
        self.tx + scaled(x, self.sx as int, self.den as int)
    }

    pub open spec fn map_y(self, y: int) -> int {
        self.ty + scaled(y, self.sy as int, self.den as int)
    }

    /// Whether every mapped coordinate of `seg` can be held.
    pub open spec fn fits(self, seg: PathSegment) -> bool {
        match seg {
            PathSegment::MoveTo(x, y) | PathSegment::LineTo(x, y) => {
                in_range(self.map_x(x as int)) && in_range(self.map_y(y as int))
            },
            PathSegment::QuadTo(cx, cy, x, y) => {
                &&& in_range(self.map_x(cx as int))
                &&& in_range(self.map_y(cy as int))
                &&& in_range(self.map_x(x as int))
                &&& in_range(self.map_y(y as int))
            },
            PathSegment::CubicTo(ax, ay, bx, by, x, y) => {
                &&& in_range(self.map_x(ax as int))
                &&& in_range(self.map_y(ay as int))
                &&& in_range(self.map_x(bx as int))
                &&& in_range(self.map_y(by as int))
                &&& in_range(self.map_x(x as int))
                &&& in_range(self.map_y(y as int))
            },
            PathSegment::Close => true,
        }
    }

    /// The segment with each of its points mapped.
    pub open spec fn map(self, seg: PathSegment) -> PathSegment {
        match seg {
            PathSegment::MoveTo(x, y) => PathSegment::MoveTo(
                self.map_x(x as int) as i64,
                self.map_y(y as int) as i64,
            ),
            PathSegment::LineTo(x, y) => PathSegment::LineTo(
                self.map_x(x as int) as i64,
                self.map_y(y as int) as i64,
            ),
            PathSegment::QuadTo(cx, cy, x, y) => PathSegment::QuadTo(
                self.map_x(cx as int) as i64,
                self.map_y(cy as int) as i64,
                self.map_x(x as int) as i64,
                self.map_y(y as int) as i64,
            ),
            PathSegment::CubicTo(ax, ay, bx, by, x, y) => PathSegment::CubicTo(
                self.map_x(ax as int) as i64,
                self.map_y(ay as int) as i64,
                self.map_x(bx as int) as i64,
                self.map_y(by as int) as i64,
                self.map_x(x as int) as i64,
                self.map_y(y as int) as i64,
            ),
            PathSegment::Close => PathSegment::Close,
        }
    }

    /// Whether the transform is usable and every segment fits under it.
    pub open spec fn fits_all(self, segs: Seq<PathSegment>) -> bool {
        self.wf() && forall|i: int| 0 <= i < segs.len() ==> self.fits(#[trigger] segs[i])
    }

    /// The segments, each one mapped.
    pub open spec fn map_all(self, segs: Seq<PathSegment>) -> Seq<PathSegment> {
        Seq::new(segs.len(), |i: int| self.map(segs[i]))
    }

    /// What the transform makes of a whole path: the mapped segments, or
    /// nothing where a coordinate would leave the range.
    pub open spec fn image(self, segs: Seq<PathSegment>) -> Option<Seq<PathSegment>> {
        if self.fits_all(segs) {
            Some(self.map_all(segs))
        } else {
            None
        }
    }

    /// The transform that changes nothing.
    pub fn identity() -> (ts: Transform)
        ensures
            ts == (Transform { tx: 0, ty: 0, sx: 1, sy: 1, den: 1 }),
    {
        Transform { tx: 0, ty: 0, sx: 1, sy: 1, den: 1 }
    }

    /// The transform that only moves by `(tx, ty)`.
    pub fn from_translate(tx: i64, ty: i64) -> (ts: Transform)
        ensures
            ts == (Transform { tx, ty, sx: 1, sy: 1, den: 1 }),
    {
        Transform { tx, ty, sx: 1, sy: 1, den: 1 }
    }

    /// The same translation with the axes scaled by `sx / den` and `sy / den`
    /// first.
    pub fn pre_scale(self, sx: i64, sy: i64, den: i64) -> (ts: Transform)
        ensures
            ts == (Transform { tx: self.tx, ty: self.ty, sx, sy, den }),
    {
        Transform { tx: self.tx, ty: self.ty, sx, sy, den }
    }

    /// Maps one horizontal coordinate.
    fn apply_x(&self, x: i64) -> (r: Option<i64>)
        requires
            self.wf(),
        ensures
            r == (if in_range(self.map_x(x as int)) {
                Some(self.map_x(x as int) as i64)
            } else {
                None
            }),
    {
        let moved: i128 = self.tx as i128 + scale(x, self.sx, self.den);
        if moved < i64::MIN as i128 || moved > i64::MAX as i128 {
            None
        } else {
            Some(moved as i64)
        }
    }

    /// Maps one vertical coordinate.
    fn apply_y(&self, y: i64) -> (r: Option<i64>)
        requires
            self.wf(),
        ensures
            r == (if in_range(self.map_y(y as int)) {
                Some(self.map_y(y as int) as i64)
            } else {
                None
            }),
    {
        let moved: i128 = self.ty as i128 + scale(y, self.sy, self.den);
        if moved < i64::MIN as i128 || moved > i64::MAX as i128 {
            None
        } else {
            Some(moved as i64)
        }
    }

    /// Maps one segment, or tells that the transform is unusable or that
    /// the segment does not fit.
    pub fn apply(&self, seg: PathSegment) -> (r: Option<PathSegment>)
        ensures
            r == (if self.wf() && self.fits(seg) {
                Some(self.map(seg))
            } else {
                None
            }),
    {
        if self.den <= 0 {
            return None;
        }
        match seg {
            PathSegment::MoveTo(x, y) => {
                match (self.apply_x(x), self.apply_y(y)) {
                    (Some(px), Some(py)) => Some(PathSegment::MoveTo(px, py)),
                    _ => None,
                }
            },
            PathSegment::LineTo(x, y) => {
                match (self.apply_x(x), self.apply_y(y)) {
                    (Some(px), Some(py)) => Some(PathSegment::LineTo(px, py)),
                    _ => None,
                }
            },
            PathSegment::QuadTo(cx, cy, x, y) => {
                match (self.apply_x(cx), self.apply_y(cy), self.apply_x(x), self.apply_y(y)) {
                    (Some(qx), Some(qy), Some(px), Some(py)) => Some(
                        PathSegment::QuadTo(qx, qy, px, py),
                    ),
                    _ => None,
                }
            },
            PathSegment::CubicTo(ax, ay, bx, by, x, y) => {
                match (
                    self.apply_x(ax),
                    self.apply_y(ay),
                    self.apply_x(bx),
                    self.apply_y(by),
                    self.apply_x(x),
                    self.apply_y(y),
                ) {
                    (Some(qx), Some(qy), Some(rx), Some(ry), Some(px), Some(py)) => Some(
                        PathSegment::CubicTo(qx, qy, rx, ry, px, py),
                    ),
                    _ => None,
                }
            },
            PathSegment::Close => Some(PathSegment::Close),
        }
    }
}

/// An ordered sequence of segments that only grows at its end.
#[derive(Debug)]
pub struct Path {
    pub segments: Vec<PathSegment>,
}

impl View for Path {
    type V = Seq<PathSegment>;

    open spec fn view(&self) -> Seq<PathSegment> {
        self.segments@
    }
}

impl Path {
    /// A path without segments.
    pub fn new() -> (p: Path)
        ensures
            p@ == Seq::<PathSegment>::empty(),
    {
        Path { segments: Vec::new() }
    }

    pub fn len(&self) -> (n: usize)
        ensures
            n == self@.len(),
    {
        self.segments.len()
    }

    pub fn is_empty(&self) -> (b: bool)
        ensures
            b == (self@.len() == 0),
    {
        self.segments.len() == 0
    }

    /// Appends one segment.
    pub fn push(&mut self, seg: PathSegment)
        ensures
            final(self)@ == old(self)@.push(seg),
    {
        self.segments.push(seg);
    }

    /// Appends the segments of `other`, in their order.
    pub fn push_path(&mut self, other: &Path)
        ensures
            final(self)@ == old(self)@ + other@,
    {
        let n = other.segments.len();
        let mut i: usize = 0;
        while i < n
            invariant
                n == other@.len(),
                i <= n,
                self@ == old(self)@ + other@.subrange(0, i as int),
            decreases n - i,
        {
            self.segments.push(other.segments[i]);
            i += 1;
        }
        assert(other@.subrange(0, n as int) =~= other@);
    }

    /// A copy of the path.
    pub fn duplicate(&self) -> (p: Path)
        ensures
            p@ == self@,
    {
        let mut p = Path::new();
        p.push_path(self);
        assert(Seq::<PathSegment>::empty() + self@ =~= self@);
        p
    }

    /// Removes every segment.
    pub fn clear(&mut self)
        ensures
            final(self)@ == Seq::<PathSegment>::empty(),
    {
        self.segments.clear();
    }

    /// The path under `ts`: every segment mapped, or nothing where the
    /// transform is unusable or a mapped coordinate leaves the range.
    pub fn transform(&self, ts: Transform) -> (r: Option<Path>)
        ensures
            match r {
                Some(p) => ts.image(self@) == Some(p@),
                None => ts.image(self@).is_none(),
            },
    {
        if ts.den <= 0 {
            return None;
        }
        let mut out = Path::new();
        let n = self.segments.len();
        let mut i: usize = 0;
        while i < n
            invariant
                ts.wf(),
                n == self@.len(),
                i <= n,
                out@.len() == i,
                forall|k: int| 0 <= k < i ==> ts.fits(#[trigger] self@[k]),
                forall|k: int| 0 <= k < i ==> out@[k] == ts.map(self@[k]),
            decreases n - i,
        {
            match ts.apply(self.segments[i]) {
                Some(seg) => {
                    out.push(seg);
                },
                None => {
                    assert(!ts.fits(self@[i as int]));
                    return None;
                },
            }
            i += 1;
        }
        assert(out@ =~= ts.map_all(self@));
        Some(out)
    }
}

} // verus!
