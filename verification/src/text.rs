//! The conversion of a text into a path.

use crate::bidi::{bidi_visual_runs, first_paragraph, paragraph_runs, Direction, DirectionalRun};
use crate::font::{Font, FontMetrics, GlyphOutline};
use crate::number::{
    clamped, lemma_scaled_neg, lemma_scaled_nonnegative, lemma_scaled_one, scale, scaled,
};
use crate::segment::{PathSegment, Transform};
use crate::sink::OutlineSink;
use crate::svg::SVGPathBuilder;
use crate::table::FontTable;
use vstd::prelude::*;

verus! {

/// What is to be converted: a text, where it starts, and how it is set.
/// Positions and sizes are in thousandths of a unit of the document.
pub struct TextPath {
    /// Where the text starts, horizontally.
    pub x: i32,
    /// Where the baseline lies.
    pub y: i32,
    /// The text.
    pub text: String,
    /// The key of the font.
    pub font: String,
    /// The size of an em.
    pub font_size: i32,
    /// The space added after each run.
    pub font_step: i32,
    /// Whether the vertical axis of the outlines is kept; it is turned over
    /// otherwise.
    pub not_reverse: bool,
}

/// The pen's position and the segments placed so far.
pub type Placing = (i64, Seq<PathSegment>);

/// The glyphs of a font that stand for glyph identifiers: for each its
/// outline, if the font holds one.
pub open spec fn slots_of(font: Font<'_>, glyphs: Seq<u32>) -> Seq<Option<GlyphOutline>> {
    Seq::new(glyphs.len(), |i: int| font.outline_of(glyphs[i] as int))
}

/// Whether a run is read from right to left.
pub open spec fn is_rtl(run: DirectionalRun) -> bool {
    run.direction == Direction::RightToLeft
}

/// The glyphs of a text, run by run: each run shaped by the font's face in
/// its direction.
pub open spec fn text_slots(font: Font<'_>, text: Seq<char>, runs: Seq<DirectionalRun>) -> Seq<
    Seq<Option<GlyphOutline>>,
> {
    Seq::new(
        runs.len(),
        |i: int|
            slots_of(
                font,
                font.glyphs_of(text, runs[i].start as int, runs[i].end as int, is_rtl(runs[i])),
            ),
    )
}

/// The glyphs of each run as sequences.
pub open spec fn run_views(runs: Seq<Vec<Option<GlyphOutline>>>) -> Seq<Seq<Option<GlyphOutline>>> {
    Seq::new(runs.len(), |i: int| runs[i]@)
}

fn clamp(v: i128) -> (r: i64)
    ensures
        r == clamped(v as int),
{
    if v < i64::MIN as i128 {
        i64::MIN
    } else if v > i64::MAX as i128 {
        i64::MAX
    } else {
        v as i64
    }
}

impl TextPath {
    /// The numerator of the vertical scale: the size of an em, negated where
    /// the vertical axis is turned over.
    pub open spec fn vertical_size(&self) -> int {
        if self.not_reverse {
            self.font_size as int
        } else {
            -(self.font_size as int)
        }
    }

    /// The transform that places a glyph when the pen is at `pen`: a
    /// translation to the pen and the baseline, after a scaling of design
    /// units to the size of an em.
    pub open spec fn glyph_transform(&self, m: FontMetrics, pen: i64) -> Transform {
        Transform {
            tx: pen,
            ty: self.y as i64,
            sx: self.font_size as i64,
            sy: self.vertical_size() as i64,
            den: (m.units_per_em as int * 1000) as i64,
        }
    }

    /// The distance that the pen moves for an extent of `units` design units.
    /// A font without a scale moves nothing.
    pub open spec fn advance(&self, m: FontMetrics, units: int) -> int {
        if m.units_per_em > 0 {
            scaled(units, self.font_size as int, m.units_per_em as int)
        } else {
            0
        }
    }

    /// The placing after one glyph. A glyph with an outline is placed at the
    /// pen, unless a coordinate of it would leave the range, and moves the
    /// pen by its extent; one without moves the pen by the advance of a
    /// space. The pen stops at the ends of the range.
    pub open spec fn after_glyph(&self, m: FontMetrics, at: Placing, slot: Option<GlyphOutline>) -> Placing {
        match slot {
            Some(outline) => (
                clamped(at.0 + self.advance(m, outline.x_max() as int)) as i64,
                match self.glyph_transform(m, at.0).image(outline.segments()) {
                    Some(moved) => at.1 + moved,
                    None => at.1,
                },
            ),
            None => (clamped(at.0 + self.advance(m, m.space_advance as int)) as i64, at.1),
        }
    }

    /// The placing after the glyphs of a run, in their order.
    pub open spec fn after_glyphs(&self, m: FontMetrics, at: Placing, slots: Seq<Option<GlyphOutline>>) -> Placing
        decreases slots.len(),
    {
        if slots.len() == 0 {
            at
        } else {
            self.after_glyph(m, self.after_glyphs(m, at, slots.drop_last()), slots.last())
        }
    }

    /// The placing after a run: its glyphs, then the letter spacing once.
    pub open spec fn after_run(&self, m: FontMetrics, at: Placing, slots: Seq<Option<GlyphOutline>>) -> Placing {
        let done = self.after_glyphs(m, at, slots);
        (clamped(done.0 + self.font_step) as i64, done.1)
    }

    /// The placing after all runs, in their order.
    pub open spec fn after_runs(&self, m: FontMetrics, at: Placing, runs: Seq<Seq<Option<GlyphOutline>>>) -> Placing
        decreases runs.len(),
    {
        if runs.len() == 0 {
            at
        } else {
            self.after_run(m, self.after_runs(m, at, runs.drop_last()), runs.last())
        }
    }

    /// The path of the text: the pen starts at `x`, and the runs are placed
    /// one after the other.
    pub open spec fn layout(&self, m: FontMetrics, runs: Seq<Seq<Option<GlyphOutline>>>) -> Seq<PathSegment> {
        self.after_runs(m, (self.x as i64, Seq::empty()), runs).1
    }

    /// Where an em is as large as the font draws it, a glyph is placed as it
    /// is drawn: each point of its outline lies as far from the pen and the
    /// baseline as it lies from the outline's origin, above the baseline
    /// turned below unless the vertical axis is kept.
    pub proof fn lemma_unit_scale(&self, m: FontMetrics, pen: i64, v: i64)
        requires
            m.units_per_em > 0,
            self.font_size == 1000 * m.units_per_em,
        ensures
            self.glyph_transform(m, pen).map_x(v as int) == pen + v,
            self.glyph_transform(m, pen).map_y(v as int) == self.y + (if self.not_reverse {
                v as int
            } else {
                -v
            }),
    {
        let den = m.units_per_em as int * 1000;
        lemma_scaled_one(v as int, den);
        lemma_scaled_neg(v as int, den, den);
    }

    /// Within a run the pen never moves back, where the size of an em is
    /// not negative and no outline ends left of its origin.
    pub proof fn lemma_pen_never_retreats(
        &self,
        m: FontMetrics,
        at: Placing,
        slots: Seq<Option<GlyphOutline>>,
    )
        requires
            self.font_size >= 0,
            forall|j: int|
                0 <= j < slots.len() ==> ((#[trigger] slots[j]) matches Some(outline)
                    ==> outline.x_max() >= 0),
        ensures
            self.after_glyphs(m, at, slots).0 >= at.0,
        decreases slots.len(),
    {
        if slots.len() > 0 {
            let front = slots.drop_last();
            assert forall|j: int| 0 <= j < front.len() implies ((#[trigger] front[j]) matches Some(
                outline,
            ) ==> outline.x_max() >= 0) by {
                assert(front[j] == slots[j]);
            }
            self.lemma_pen_never_retreats(m, at, front);
            let before = self.after_glyphs(m, at, front);
            let slot = slots[slots.len() - 1];
            if m.units_per_em > 0 {
                lemma_scaled_nonnegative(
                    m.space_advance as int,
                    self.font_size as int,
                    m.units_per_em as int,
                );
                match slot {
                    Some(outline) => {
                        lemma_scaled_nonnegative(
                            outline.x_max() as int,
                            self.font_size as int,
                            m.units_per_em as int,
                        );
                    },
                    None => {},
                }
            }
        }
    }

    fn moved_pen(&self, m: FontMetrics, pen: i64, units: i32) -> (next: i64)
        ensures
            next == clamped(pen + self.advance(m, units as int)),
    {
        if m.units_per_em > 0 {
            clamp(pen as i128 + scale(units as i64, self.font_size as i64, m.units_per_em as i64))
        } else {
            pen
        }
    }

    fn transform_at(&self, m: FontMetrics, pen: i64) -> (ts: Transform)
        ensures
            ts == self.glyph_transform(m, pen),
    {
        let size = self.font_size as i64;
        let sy = if self.not_reverse {
            size
        } else {
            -size
        };
        Transform::from_translate(pen, self.y as i64).pre_scale(size, sy, m.units_per_em as i64 * 1000)
    }

    /// Places one glyph at the pen and moves the pen past it.
    fn place_glyph(
        &self,
        m: FontMetrics,
        builder: &mut SVGPathBuilder,
        pen: i64,
        slot: Option<&GlyphOutline>,
    ) -> (next: i64)
        requires
            old(builder).received().len() == 0,
        ensures
            (next, final(builder).placed()) == self.after_glyph(
                m,
                (pen, old(builder).placed()),
                match slot {
                    Some(outline) => Some(*outline),
                    None => None,
                },
            ),
            final(builder).received().len() == 0,
    {
        match slot {
            Some(outline) => {
                builder.draw(outline.as_segments());
                assert(builder.received() =~= outline.segments());
                builder.clear(self.transform_at(m, pen));
                self.moved_pen(m, pen, outline.extent() as i32)
            },
            None => self.moved_pen(m, pen, m.space_advance as i32),
        }
    }

    fn place_glyph_ids(
        &self,
        m: FontMetrics,
        font: &Font<'_>,
        builder: &mut SVGPathBuilder,
        pen: i64,
        glyphs: &Vec<u32>,
    ) -> (next: i64)
        requires
            old(builder).received().len() == 0,
            forall|i: int| 0 <= i < glyphs@.len() ==> #[trigger] glyphs@[i] <= u16::MAX,
        ensures
            (next, final(builder).placed()) == self.after_run(
                m,
                (pen, old(builder).placed()),
                slots_of(*font, glyphs@),
            ),
            final(builder).received().len() == 0,
    {
        let ghost slots = slots_of(*font, glyphs@);
        let ghost start: Placing = (pen, builder.placed());
        let n = glyphs.len();
        let mut at = pen;
        let mut i: usize = 0;
        assert(slots.take(0) =~= Seq::<Option<GlyphOutline>>::empty());
        while i < n
            invariant
                n == glyphs@.len(),
                i <= n,
                slots == slots_of(*font, glyphs@),
                forall|k: int| 0 <= k < glyphs@.len() ==> #[trigger] glyphs@[k] <= u16::MAX,
                builder.received().len() == 0,
                (at, builder.placed()) == self.after_glyphs(m, start, slots.take(i as int)),
            decreases n - i,
        {
            let slot = font.outline(glyphs[i] as u16);
            at = self.place_glyph(m, builder, at, slot);
            proof {
                let next = slots.take(i + 1);
                assert(next.drop_last() =~= slots.take(i as int));
                assert(next.last() == font.outline_of(glyphs@[i as int] as int));
            }
            i += 1;
        }
        assert(slots.take(n as int) =~= slots);
        clamp(at as i128 + self.font_step as i128)
    }

    fn place_slots(
        &self,
        m: FontMetrics,
        builder: &mut SVGPathBuilder,
        pen: i64,
        slots: &Vec<Option<GlyphOutline>>,
    ) -> (next: i64)
        requires
            old(builder).received().len() == 0,
        ensures
            (next, final(builder).placed()) == self.after_run(m, (pen, old(builder).placed()), slots@),
            final(builder).received().len() == 0,
    {
        let ghost start: Placing = (pen, builder.placed());
        let n = slots.len();
        let mut at = pen;
        let mut i: usize = 0;
        assert(slots@.take(0) =~= Seq::<Option<GlyphOutline>>::empty());
        while i < n
            invariant
                n == slots@.len(),
                i <= n,
                builder.received().len() == 0,
                (at, builder.placed()) == self.after_glyphs(m, start, slots@.take(i as int)),
            decreases n - i,
        {
            at = self.place_glyph(m, builder, at, slots[i].as_ref());
            proof {
                let next = slots@.take(i + 1);
                assert(next.drop_last() =~= slots@.take(i as int));
                assert(next.last() == slots@[i as int]);
            }
            i += 1;
        }
        assert(slots@.take(n as int) =~= slots@);
        clamp(at as i128 + self.font_step as i128)
    }

    /// Places runs of glyphs that are given with their outlines: the
    /// composition of a text whose shaping is known.
    pub fn place_runs(&self, m: FontMetrics, runs: &Vec<Vec<Option<GlyphOutline>>>) -> (builder:
        SVGPathBuilder)
        ensures
            builder.placed() == self.layout(m, run_views(runs@)),
            builder.received().len() == 0,
    {
        let ghost all = run_views(runs@);
        let mut builder = SVGPathBuilder::new();
        let mut pen: i64 = self.x as i64;
        let n = runs.len();
        let mut i: usize = 0;
        assert(all.take(0) =~= Seq::<Seq<Option<GlyphOutline>>>::empty());
        while i < n
            invariant
                n == runs@.len(),
                i <= n,
                all == run_views(runs@),
                builder.received().len() == 0,
                (pen, builder.placed()) == self.after_runs(
                    m,
                    (self.x as i64, Seq::empty()),
                    all.take(i as int),
                ),
            decreases n - i,
        {
            pen = self.place_slots(m, &mut builder, pen, &runs[i]);
            proof {
                let next = all.take(i + 1);
                assert(next.drop_last() =~= all.take(i as int));
                assert(next.last() == runs@[i as int]@);
            }
            i += 1;
        }
        assert(all.take(n as int) =~= all);
        builder
    }

    /// Converts the text: its first paragraph is split into runs in visual
    /// order, each run is shaped with the font under the key, and the
    /// glyphs are placed one after the other. There is no result where no
    /// font has the key or the text is empty.
    pub fn to_path(&self, faces: &FontTable<'_>) -> (r: Option<SVGPathBuilder>)
        ensures
            match r {
                Some(builder) => {
                    &&& faces@.contains_key(self.font@)
                    &&& first_paragraph(bidi_visual_runs(self.text@)) matches Some(runs)
                    &&& builder.placed() == self.layout(
                        faces@[self.font@].metrics_of(),
                        text_slots(faces@[self.font@], self.text@, runs),
                    )
                    &&& builder.received().len() == 0
                },
                None => !faces@.contains_key(self.font@) || self.text@.len() == 0,
            },
            !faces@.contains_key(self.font@) ==> r.is_none(),
            self.text@.len() == 0 ==> r.is_none(),
    {
        let font = match faces.get(&self.font) {
            Some(font) => font,
            None => {
                return None;
            },
        };
        let text = self.text.as_str();
        let runs = match paragraph_runs(text) {
            Some(runs) => runs,
            None => {
                return None;
            },
        };
        let m = font.metrics();
        let ghost all = text_slots(*font, self.text@, runs@);
        let mut builder = SVGPathBuilder::new();
        let mut pen: i64 = self.x as i64;
        let n = runs.len();
        let mut i: usize = 0;
        assert(all.take(0) =~= Seq::<Seq<Option<GlyphOutline>>>::empty());
        while i < n
            invariant
                n == runs@.len(),
                i <= n,
                text@ == self.text@,
                all == text_slots(*font, self.text@, runs@),
                forall|k: int|
                    0 <= k < runs@.len() ==> crate::bidi::within_text(
                        text,
                        (#[trigger] runs@[k]).start,
                        runs@[k].end,
                    ),
                builder.received().len() == 0,
                (pen, builder.placed()) == self.after_runs(
                    m,
                    (self.x as i64, Seq::empty()),
                    all.take(i as int),
                ),
            decreases n - i,
        {
            let run = runs[i];
            let rtl = match run.direction {
                Direction::RightToLeft => true,
                Direction::LeftToRight => false,
            };
            let glyphs = font.shape(text, run.start, run.end, rtl);
            pen = self.place_glyph_ids(m, font, &mut builder, pen, &glyphs);
            proof {
                let next = all.take(i + 1);
                assert(next.drop_last() =~= all.take(i as int));
                assert(next.last() == slots_of(*font, glyphs@));
            }
            i += 1;
        }
        assert(all.take(n as int) =~= all);
        Some(builder)
    }
}

} // verus!
