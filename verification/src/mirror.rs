//! Turning the vertical axis over mirrors the path about the baseline.

use crate::font::{in_outline, segment_in_outline, segments_in_outline, FontMetrics, GlyphOutline};
use crate::number::{in_range, lemma_scaled_bound, lemma_scaled_neg, scaled};
use crate::segment::{PathSegment, Transform};
use crate::text::{Placing, TextPath};
use vstd::prelude::*;

verus! {

/// The coordinate as far on the other side of `axis` as `y` is on its own.
pub open spec fn flipped(axis: int, y: i64) -> i64 {
    (2 * axis - y) as i64
}

/// The segment with each of its points mirrored about the horizontal line
/// at `axis`.
pub open spec fn mirrored_segment(axis: int, seg: PathSegment) -> PathSegment {
    match seg {
        PathSegment::MoveTo(x, y) => PathSegment::MoveTo(x, flipped(axis, y)),
        PathSegment::LineTo(x, y) => PathSegment::LineTo(x, flipped(axis, y)),
        PathSegment::QuadTo(x1, y1, x, y) => PathSegment::QuadTo(
            x1,
            flipped(axis, y1),
            x,
            flipped(axis, y),
        ),
        PathSegment::CubicTo(x1, y1, x2, y2, x, y) => PathSegment::CubicTo(
            x1,
            flipped(axis, y1),
            x2,
            flipped(axis, y2),
            x,
            flipped(axis, y),
        ),
        PathSegment::Close => PathSegment::Close,
    }
}

/// The path mirrored about the horizontal line at `axis`.
pub open spec fn mirrored(axis: int, segs: Seq<PathSegment>) -> Seq<PathSegment> {
    Seq::new(segs.len(), |i: int| mirrored_segment(axis, segs[i]))
}

/// Two requests that place the same text in the same way, but for the
/// direction of the vertical axis.
pub open spec fn differ_in_orientation(a: TextPath, b: TextPath) -> bool {
    &&& a.x == b.x
    &&& a.y == b.y
    &&& a.font_size == b.font_size
    &&& a.font_step == b.font_step
    &&& a.not_reverse != b.not_reverse
}

/// Whether every outline among the glyphs is a valid one.
pub open spec fn outlines_valid(runs: Seq<Seq<Option<GlyphOutline>>>) -> bool {
    forall|i: int, j: int|
        0 <= i < runs.len() && 0 <= j < runs[i].len() ==> ((#[trigger] runs[i][j]) matches Some(
            outline,
        ) ==> outline.wf())
}

proof fn lemma_vertical(a: TextPath, b: TextPath, m: FontMetrics, pen: i64, v: i64)
    requires
        differ_in_orientation(a, b),
        in_outline(v),
        m.units_per_em > 0,
    ensures
        in_range(a.glyph_transform(m, pen).map_y(v as int)),
        in_range(b.glyph_transform(m, pen).map_y(v as int)),
        b.glyph_transform(m, pen).map_y(v as int) == 2 * a.y - a.glyph_transform(m, pen).map_y(
            v as int,
        ),
{
    let size = a.vertical_size();
    let den = m.units_per_em as int * 1000;
    lemma_scaled_neg(v as int, size, den);
    lemma_scaled_bound(v as int, size, den, 0x8000_0000, 0x8000_0000);
    assert(0x8000_0000int * 0x8000_0000int == 0x4000_0000_0000_0000int);
    assert(b.vertical_size() == -size);
}

proof fn lemma_segment(a: TextPath, b: TextPath, m: FontMetrics, pen: i64, seg: PathSegment)
    requires
        differ_in_orientation(a, b),
        segment_in_outline(seg),
        m.units_per_em > 0,
    ensures
        a.glyph_transform(m, pen).fits(seg) == b.glyph_transform(m, pen).fits(seg),
        a.glyph_transform(m, pen).fits(seg) ==> b.glyph_transform(m, pen).map(seg)
            == mirrored_segment(a.y as int, a.glyph_transform(m, pen).map(seg)),
{
    match seg {
        PathSegment::MoveTo(x, y) => {
            lemma_vertical(a, b, m, pen, y);
        },
        PathSegment::LineTo(x, y) => {
            lemma_vertical(a, b, m, pen, y);
        },
        PathSegment::QuadTo(x1, y1, x, y) => {
            lemma_vertical(a, b, m, pen, y1);
            lemma_vertical(a, b, m, pen, y);
        },
        PathSegment::CubicTo(x1, y1, x2, y2, x, y) => {
            lemma_vertical(a, b, m, pen, y1);
            lemma_vertical(a, b, m, pen, y2);
            lemma_vertical(a, b, m, pen, y);
        },
        PathSegment::Close => {},
    }
}

proof fn lemma_image(a: TextPath, b: TextPath, m: FontMetrics, pen: i64, segs: Seq<PathSegment>)
    requires
        differ_in_orientation(a, b),
        segments_in_outline(segs),
    ensures
        match a.glyph_transform(m, pen).image(segs) {
            Some(moved) => b.glyph_transform(m, pen).image(segs) == Some(
                mirrored(a.y as int, moved),
            ),
            None => b.glyph_transform(m, pen).image(segs).is_none(),
        },
{
    let ta = a.glyph_transform(m, pen);
    let tb = b.glyph_transform(m, pen);
    if m.units_per_em > 0 {
        assert forall|i: int| 0 <= i < segs.len() implies ta.fits(#[trigger] segs[i]) == tb.fits(
            segs[i],
        ) && (ta.fits(segs[i]) ==> tb.map(segs[i]) == mirrored_segment(
            a.y as int,
            ta.map(segs[i]),
        )) by {
            lemma_segment(a, b, m, pen, segs[i]);
        }
        if ta.fits_all(segs) {
            assert(tb.fits_all(segs));
            assert(tb.map_all(segs) =~= mirrored(a.y as int, ta.map_all(segs)));
        } else {
            let i = choose|i: int| 0 <= i < segs.len() && !ta.fits(#[trigger] segs[i]);
            assert(!tb.fits(segs[i]));
        }
    }
}

proof fn lemma_after_glyph(
    a: TextPath,
    b: TextPath,
    m: FontMetrics,
    at: Placing,
    slot: Option<GlyphOutline>,
)
    requires
        differ_in_orientation(a, b),
        slot matches Some(outline) ==> outline.wf(),
    ensures
        b.after_glyph(m, (at.0, mirrored(a.y as int, at.1)), slot) == (
            a.after_glyph(m, at, slot).0,
            mirrored(a.y as int, a.after_glyph(m, at, slot).1),
        ),
{
    match slot {
        Some(outline) => {
            lemma_image(a, b, m, at.0, outline.segments());
            match a.glyph_transform(m, at.0).image(outline.segments()) {
                Some(moved) => {
                    assert(mirrored(a.y as int, at.1) + mirrored(a.y as int, moved) =~= mirrored(
                        a.y as int,
                        at.1 + moved,
                    ));
                },
                None => {},
            }
        },
        None => {},
    }
}

proof fn lemma_after_glyphs(
    a: TextPath,
    b: TextPath,
    m: FontMetrics,
    at: Placing,
    slots: Seq<Option<GlyphOutline>>,
)
    requires
        differ_in_orientation(a, b),
        forall|j: int| 0 <= j < slots.len() ==> ((#[trigger] slots[j]) matches Some(outline)
            ==> outline.wf()),
    ensures
        b.after_glyphs(m, (at.0, mirrored(a.y as int, at.1)), slots) == (
            a.after_glyphs(m, at, slots).0,
            mirrored(a.y as int, a.after_glyphs(m, at, slots).1),
        ),
    decreases slots.len(),
{
    if slots.len() > 0 {
        let front = slots.drop_last();
        assert forall|j: int| 0 <= j < front.len() implies ((#[trigger] front[j]) matches Some(
            outline,
        ) ==> outline.wf()) by {
            assert(front[j] == slots[j]);
        }
        lemma_after_glyphs(a, b, m, at, front);
        assert(slots.last() == slots[slots.len() - 1]);
        lemma_after_glyph(a, b, m, a.after_glyphs(m, at, front), slots.last());
    }
}

proof fn lemma_after_runs(
    a: TextPath,
    b: TextPath,
    m: FontMetrics,
    at: Placing,
    runs: Seq<Seq<Option<GlyphOutline>>>,
)
    requires
        differ_in_orientation(a, b),
        outlines_valid(runs),
    ensures
        b.after_runs(m, (at.0, mirrored(a.y as int, at.1)), runs) == (
            a.after_runs(m, at, runs).0,
            mirrored(a.y as int, a.after_runs(m, at, runs).1),
        ),
    decreases runs.len(),
{
    if runs.len() > 0 {
        let front = runs.drop_last();
        assert forall|i: int, j: int| 0 <= i < front.len() && 0 <= j < front[i].len() implies ((
        #[trigger] front[i][j]) matches Some(outline) ==> outline.wf()) by {
            assert(front[i] == runs[i]);
            assert(front[i][j] == runs[i][j]);
        }
        lemma_after_runs(a, b, m, at, front);
        let last = runs.last();
        assert forall|j: int| 0 <= j < last.len() implies ((#[trigger] last[j]) matches Some(
            outline,
        ) ==> outline.wf()) by {
            assert(last[j] == runs[runs.len() - 1][j]);
        }
        lemma_after_glyphs(a, b, m, a.after_runs(m, at, front), last);
    }
}

/// Two conversions that differ only in the direction of the vertical axis
/// give paths that are mirror images of each other about the baseline:
/// the same segments in the same order, each point as far below the line
/// at `y` in one as it is above it in the other.
pub proof fn lemma_orientation_mirrors(
    a: TextPath,
    b: TextPath,
    m: FontMetrics,
    runs: Seq<Seq<Option<GlyphOutline>>>,
)
    requires
        differ_in_orientation(a, b),
        outlines_valid(runs),
    ensures
        b.layout(m, runs) == mirrored(a.y as int, a.layout(m, runs)),
{
    let start: Placing = (a.x as i64, Seq::empty());
    assert(mirrored(a.y as int, start.1) =~= Seq::<PathSegment>::empty());
    lemma_after_runs(a, b, m, start, runs);
}

} // verus!
