//! The five drawing primitives that an outline is handed over by.

use crate::segment::{Path, PathSegment};
use vstd::prelude::*;

verus! {

/// A consumer of outlines. Whatever it does with them, it can say which
/// primitives it has been given so far, in their order.
pub trait OutlineSink {
    /// The primitives received so far.
    spec fn received(&self) -> Seq<PathSegment>;

    /// Begins a subpath at `(x, y)`.
    fn move_to(&mut self, x: i64, y: i64)
        ensures
            final(self).received() == old(self).received().push(PathSegment::MoveTo(x, y)),
    ;

    /// Draws a line to `(x, y)`.
    fn line_to(&mut self, x: i64, y: i64)
        ensures
            final(self).received() == old(self).received().push(PathSegment::LineTo(x, y)),
    ;

    /// Draws a quadratic curve to `(x, y)` with the control point `(x1, y1)`.
    fn quad_to(&mut self, x1: i64, y1: i64, x: i64, y: i64)
        ensures
            final(self).received() == old(self).received().push(
                PathSegment::QuadTo(x1, y1, x, y),
            ),
    ;

    /// Draws a cubic curve to `(x, y)` with the control points `(x1, y1)`
    /// and `(x2, y2)`.
    fn curve_to(&mut self, x1: i64, y1: i64, x2: i64, y2: i64, x: i64, y: i64)
        ensures
            final(self).received() == old(self).received().push(
                PathSegment::CubicTo(x1, y1, x2, y2, x, y),
            ),
    ;

    /// Closes the subpath.
    fn close(&mut self)
        ensures
            final(self).received() == old(self).received().push(PathSegment::Close),
    ;
}

/// Hands one segment to the sink through the primitive that it stands for.
pub fn emit_segment<S: OutlineSink>(seg: PathSegment, sink: &mut S)
    ensures
        final(sink).received() == old(sink).received().push(seg),
{
    match seg {
        PathSegment::MoveTo(x, y) => sink.move_to(x, y),
        PathSegment::LineTo(x, y) => sink.line_to(x, y),
        PathSegment::QuadTo(x1, y1, x, y) => sink.quad_to(x1, y1, x, y),
        PathSegment::CubicTo(x1, y1, x2, y2, x, y) => sink.curve_to(x1, y1, x2, y2, x, y),
        PathSegment::Close => sink.close(),
    }
}

/// Hands a whole path to the sink, segment by segment.
pub fn emit_path<S: OutlineSink>(path: &Path, sink: &mut S)
    ensures
        final(sink).received() == old(sink).received() + path@,
{
    let n = path.len();
    let mut i: usize = 0;
    while i < n
        invariant
            n == path@.len(),
            i <= n,
            sink.received() == old(sink).received() + path@.subrange(0, i as int),
        decreases n - i,
    {
        emit_segment(path.segments[i], sink);
        assert(path@.subrange(0, i + 1) =~= path@.subrange(0, i as int).push(path@[i as int]));
        i += 1;
    }
    assert(path@.subrange(0, n as int) =~= path@);
}

} // verus!
