//! A sink for page content that knows lines and cubic curves only.

use crate::curve::{elevated, quadratic_to_cubic, Point};
use crate::segment::{Path, PathSegment};
use crate::sink::OutlineSink;
use vstd::prelude::*;

verus! {

/// Where the pen stands after `seg`, when it stood at `last` before. Closing
/// a subpath leaves the remembered point as it was.
pub open spec fn point_after(last: Point, seg: PathSegment) -> Point {
    match seg {
        PathSegment::MoveTo(x, y) => Point { x, y },
        PathSegment::LineTo(x, y) => Point { x, y },
        PathSegment::QuadTo(_, _, x, y) => Point { x, y },
        PathSegment::CubicTo(_, _, _, _, x, y) => Point { x, y },
        PathSegment::Close => last,
    }
}

/// The segment as a sink without quadratic curves takes it: a quadratic
/// curve that starts at `last` becomes its cubic, anything else stays.
pub open spec fn without_quadratic(last: Point, seg: PathSegment) -> PathSegment {
    match seg {
        PathSegment::QuadTo(x1, y1, x, y) => {
            let q = elevated(last, Point { x: x1, y: y1 }, Point { x, y });
            PathSegment::CubicTo(q.1.x, q.1.y, q.2.x, q.2.y, q.3.x, q.3.y)
        },
        _ => seg,
    }
}

/// Where the pen stands after all of `segs`, starting from `start`.
pub open spec fn end_point(start: Point, segs: Seq<PathSegment>) -> Point
    decreases segs.len(),
{
    if segs.len() == 0 {
        start
    } else {
        point_after(end_point(start, segs.drop_last()), segs.last())
    }
}

/// The segments with every quadratic curve raised to a cubic; each curve
/// starts where the segments before it have left the pen.
pub open spec fn normalized(start: Point, segs: Seq<PathSegment>) -> Seq<PathSegment>
    decreases segs.len(),
{
    if segs.len() == 0 {
        Seq::empty()
    } else {
        normalized(start, segs.drop_last()).push(
            without_quadratic(end_point(start, segs.drop_last()), segs.last()),
        )
    }
}

/// Normalizing keeps the number of segments and leaves no quadratic curve.
pub proof fn lemma_normalized_is_cubic(start: Point, segs: Seq<PathSegment>)
    ensures
        normalized(start, segs).len() == segs.len(),
        forall|i: int|
            0 <= i < segs.len() ==> !(#[trigger] normalized(start, segs)[i] is QuadTo),
    decreases segs.len(),
{
    if segs.len() > 0 {
        lemma_normalized_is_cubic(start, segs.drop_last());
    }
}

/// Collects an outline for a sink without quadratic curves, remembering
/// where the pen stands so that each quadratic curve can be raised.
pub struct PDFPathBuilder {
    last: Point,
    path: Path,
    log: Ghost<Seq<PathSegment>>,
}

impl PDFPathBuilder {
    /// The point that the next curve starts from.
    pub closed spec fn last(&self) -> Point {
        self.last
    }

    /// The segments written so far, none of them quadratic.
    pub closed spec fn written(&self) -> Seq<PathSegment> {
        self.path@
    }

    /// A builder that has written nothing, with the pen at `(x, y)`.
    pub fn new(x: i64, y: i64) -> (b: PDFPathBuilder)
        ensures
            b.last() == (Point { x, y }),
            b.written() == Seq::<PathSegment>::empty(),
            b.received() == Seq::<PathSegment>::empty(),
    {
        PDFPathBuilder { last: Point { x, y }, path: Path::new(), log: Ghost(Seq::empty()) }
    }

    /// The point that the next curve starts from.
    pub fn current_point(&self) -> (p: Point)
        ensures
            p == self.last(),
    {
        self.last
    }

    /// The segments written so far.
    pub fn path(&self) -> (p: &Path)
        ensures
            p@ == self.written(),
    {
        &self.path
    }

    /// Takes one segment through the primitive that it stands for.
    pub fn accept(&mut self, seg: PathSegment)
        ensures
            final(self).written() == old(self).written().push(
                without_quadratic(old(self).last(), seg),
            ),
            final(self).last() == point_after(old(self).last(), seg),
            final(self).received() == old(self).received().push(seg),
    {
        match seg {
            PathSegment::MoveTo(x, y) => self.move_to(x, y),
            PathSegment::LineTo(x, y) => self.line_to(x, y),
            PathSegment::QuadTo(x1, y1, x, y) => self.quad_to(x1, y1, x, y),
            PathSegment::CubicTo(x1, y1, x2, y2, x, y) => self.curve_to(x1, y1, x2, y2, x, y),
            PathSegment::Close => self.close(),
        }
    }

    /// Takes a whole path: every segment is written in its order, the
    /// quadratic curves raised to cubics.
    pub fn set(&mut self, path: &Path)
        ensures
            final(self).written() == old(self).written() + normalized(old(self).last(), path@),
            final(self).last() == end_point(old(self).last(), path@),
            final(self).received() == old(self).received() + path@,
    {
        let n = path.len();
        let mut i: usize = 0;
        assert(path@.take(0) =~= Seq::<PathSegment>::empty());
        while i < n
            invariant
                n == path@.len(),
                i <= n,
                self.written() == old(self).written() + normalized(
                    old(self).last(),
                    path@.take(i as int),
                ),
                self.last() == end_point(old(self).last(), path@.take(i as int)),
                self.received() == old(self).received() + path@.take(i as int),
            decreases n - i,
        {
            self.accept(path.segments[i]);
            proof {
                let next = path@.take(i + 1);
                assert(next.drop_last() =~= path@.take(i as int));
                assert(next.last() == path@[i as int]);
                assert(next =~= path@.take(i as int).push(path@[i as int]));
            }
            i += 1;
        }
        assert(path@.take(n as int) =~= path@);
    }
}

impl OutlineSink for PDFPathBuilder {
    closed spec fn received(&self) -> Seq<PathSegment> {
        self.log@
    }

    fn move_to(&mut self, x: i64, y: i64)
        ensures
            final(self).written() == old(self).written().push(PathSegment::MoveTo(x, y)),
            final(self).last() == (Point { x, y }),
    {
        self.last = Point { x, y };
        self.path.push(PathSegment::MoveTo(x, y));
        self.log = Ghost(self.log@.push(PathSegment::MoveTo(x, y)));
    }

    fn line_to(&mut self, x: i64, y: i64)
        ensures
            final(self).written() == old(self).written().push(PathSegment::LineTo(x, y)),
            final(self).last() == (Point { x, y }),
    {
        self.last = Point { x, y };
        self.path.push(PathSegment::LineTo(x, y));
        self.log = Ghost(self.log@.push(PathSegment::LineTo(x, y)));
    }

    fn quad_to(&mut self, x1: i64, y1: i64, x: i64, y: i64)
        ensures
            final(self).written() == old(self).written().push(
                without_quadratic(old(self).last(), PathSegment::QuadTo(x1, y1, x, y)),
            ),
            final(self).last() == (Point { x, y }),
    {
        let q = quadratic_to_cubic(self.last, Point { x: x1, y: y1 }, Point { x, y });
        self.last = Point { x, y };
        self.path.push(PathSegment::CubicTo(q.1.x, q.1.y, q.2.x, q.2.y, q.3.x, q.3.y));
        self.log = Ghost(self.log@.push(PathSegment::QuadTo(x1, y1, x, y)));
    }

    fn curve_to(&mut self, x1: i64, y1: i64, x2: i64, y2: i64, x: i64, y: i64)
        ensures
            final(self).written() == old(self).written().push(
                PathSegment::CubicTo(x1, y1, x2, y2, x, y),
            ),
            final(self).last() == (Point { x, y }),
    {
        self.last = Point { x, y };
        self.path.push(PathSegment::CubicTo(x1, y1, x2, y2, x, y));
        self.log = Ghost(self.log@.push(PathSegment::CubicTo(x1, y1, x2, y2, x, y)));
    }

    fn close(&mut self)
        ensures
            final(self).written() == old(self).written().push(PathSegment::Close),
            final(self).last() == old(self).last(),
    {
        self.path.push(PathSegment::Close);
        self.log = Ghost(self.log@.push(PathSegment::Close));
    }
}

} // verus!
