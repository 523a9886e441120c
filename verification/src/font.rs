//! Fonts: a parsed face for shaping and metrics, and the outlines of its
//! glyphs as plain segments.

use crate::segment::PathSegment;
use vstd::prelude::*;
use vstd::string::*;
use vstd::utf8::is_char_boundary;

verus! {

/// A parsed face of the shaping engine. Nothing inside it is visible to
/// proofs; what the library reads from it has a name below.
#[verifier::external_type_specification]
#[verifier::external_body]
pub struct ExFace<'a>(rustybuzz::Face<'a>);

/// The number of design units that make one em in a face.
pub uninterp spec fn face_units_per_em(face: rustybuzz::Face<'_>) -> int;

/// The glyph that a face maps a character to, if it maps it.
pub uninterp spec fn face_glyph_index(face: rustybuzz::Face<'_>, c: char) -> Option<u16>;

/// The horizontal advance that a face gives for a glyph, in design units.
pub uninterp spec fn face_hor_advance(face: rustybuzz::Face<'_>, glyph: u16) -> Option<u16>;

/// The glyphs that shaping with a face makes of the bytes `start..end` of a
/// text, read in the given direction as the script with the given tag.
pub uninterp spec fn shaped_glyph_ids(
    face: rustybuzz::Face<'_>,
    text: Seq<char>,
    start: int,
    end: int,
    rtl: bool,
    script: u32,
) -> Seq<u32>;

/// `rustybuzz::Face::units_per_em`: the scale that the face was parsed
/// with. The parser admits a face only where it lies from 16 to 16384.
#[verifier::external_body]
fn units_per_em(face: &rustybuzz::Face<'_>) -> (upm: i32)
    ensures
        upm == face_units_per_em(*face),
        16 <= upm <= 16384,
{
    face.units_per_em()
}

/// `ttf_parser::Face::glyph_index`: the glyph of the first Unicode
/// character map of the face that knows the character.
#[verifier::external_body]
fn glyph_index(face: &rustybuzz::Face<'_>, c: char) -> (glyph: Option<u16>)
    ensures
        glyph == face_glyph_index(*face, c),
{
    face.glyph_index(c).map(|id| id.0)
}

/// `ttf_parser::Face::glyph_hor_advance`: the advance of the glyph in the
/// horizontal metrics of the face, where it has them.
#[verifier::external_body]
fn glyph_hor_advance(face: &rustybuzz::Face<'_>, glyph: u16) -> (advance: Option<u16>)
    ensures
        advance == face_hor_advance(*face, glyph),
{
    face.glyph_hor_advance(rustybuzz::ttf_parser::GlyphId(glyph))
}

/// `rustybuzz::shape` without features, on a buffer that holds the bytes
/// `start..end` of the text, with the direction and the script set. The
/// glyph identifiers come in the order of the shaped buffer, and each fits
/// in sixteen bits.
#[verifier::external_body]
fn shape_run(
    face: &rustybuzz::Face<'_>,
    text: &str,
    start: usize,
    end: usize,
    rtl: bool,
    script: u32,
) -> (glyphs: Vec<u32>)
    requires
        start <= end <= text.spec_bytes().len(),
        is_char_boundary(text.spec_bytes(), start as int),
        is_char_boundary(text.spec_bytes(), end as int),
        script != 0,
    ensures
        glyphs@ == shaped_glyph_ids(*face, text@, start as int, end as int, rtl, script),
        forall|i: int| 0 <= i < glyphs@.len() ==> #[trigger] glyphs@[i] <= u16::MAX,
{
    let mut buffer = rustybuzz::UnicodeBuffer::new();
    buffer.push_str(&text[start..end]);
    let tag = rustybuzz::ttf_parser::Tag(script);
    buffer.set_script(rustybuzz::Script::from_iso15924_tag(tag).unwrap());
    buffer.set_direction(
        if rtl {
            rustybuzz::Direction::RightToLeft
        } else {
            rustybuzz::Direction::LeftToRight
        },
    );
    let shaped = rustybuzz::shape(face, &[], buffer);
    shaped.glyph_infos().iter().map(|info| info.glyph_id).collect()
}

/// The tag of the one script that every run is shaped as: `Arab`.
pub const SCRIPT_TAG: u32 = 0x4172_6162;

/// The largest size of a coordinate in a glyph's outline.
pub const OUTLINE_LIMIT: i64 = 0x8000_0000;

/// Whether a coordinate is small enough for an outline.
pub open spec fn in_outline(v: i64) -> bool {
    -OUTLINE_LIMIT <= v <= OUTLINE_LIMIT
}

/// Whether every coordinate of a segment is small enough for an outline.
pub open spec fn segment_in_outline(seg: PathSegment) -> bool {
    match seg {
        PathSegment::MoveTo(x, y) | PathSegment::LineTo(x, y) => in_outline(x) && in_outline(y),
        PathSegment::QuadTo(x1, y1, x, y) => {
            in_outline(x1) && in_outline(y1) && in_outline(x) && in_outline(y)
        },
        PathSegment::CubicTo(x1, y1, x2, y2, x, y) => {
            &&& in_outline(x1)
            &&& in_outline(y1)
            &&& in_outline(x2)
            &&& in_outline(y2)
            &&& in_outline(x)
            &&& in_outline(y)
        },
        PathSegment::Close => true,
    }
}

/// Whether every segment is small enough for an outline.
pub open spec fn segments_in_outline(segs: Seq<PathSegment>) -> bool {
    forall|i: int| 0 <= i < segs.len() ==> segment_in_outline(#[trigger] segs[i])
}

fn fits_outline(seg: PathSegment) -> (b: bool)
    ensures
        b == segment_in_outline(seg),
{
    match seg {
        PathSegment::MoveTo(x, y) | PathSegment::LineTo(x, y) => {
            -OUTLINE_LIMIT <= x && x <= OUTLINE_LIMIT && -OUTLINE_LIMIT <= y && y <= OUTLINE_LIMIT
        },
        PathSegment::QuadTo(x1, y1, x, y) => {
            -OUTLINE_LIMIT <= x1 && x1 <= OUTLINE_LIMIT && -OUTLINE_LIMIT <= y1 && y1
                <= OUTLINE_LIMIT && -OUTLINE_LIMIT <= x && x <= OUTLINE_LIMIT && -OUTLINE_LIMIT
                <= y && y <= OUTLINE_LIMIT
        },
        PathSegment::CubicTo(x1, y1, x2, y2, x, y) => {
            -OUTLINE_LIMIT <= x1 && x1 <= OUTLINE_LIMIT && -OUTLINE_LIMIT <= y1 && y1
                <= OUTLINE_LIMIT && -OUTLINE_LIMIT <= x2 && x2 <= OUTLINE_LIMIT && -OUTLINE_LIMIT
                <= y2 && y2 <= OUTLINE_LIMIT && -OUTLINE_LIMIT <= x && x <= OUTLINE_LIMIT
                && -OUTLINE_LIMIT <= y && y <= OUTLINE_LIMIT
        },
        PathSegment::Close => true,
    }
}

/// The outline of one glyph: its segments, in thousandths of a design unit,
/// and the largest horizontal extent of its bounding box, in design units.
pub struct GlyphOutline {
    segments: Vec<PathSegment>,
    x_max: i16,
}

impl GlyphOutline {
    #[verifier::type_invariant]
    spec fn inv(&self) -> bool {
        segments_in_outline(self.segments@)
    }

    /// The segments of the outline.
    pub closed spec fn segments(&self) -> Seq<PathSegment> {
        self.segments@
    }

    /// The largest horizontal extent of the outline.
    pub closed spec fn x_max(&self) -> i16 {
        self.x_max
    }

    /// What every outline holds: none of its coordinates exceeds the limit.
    pub open spec fn wf(&self) -> bool {
        segments_in_outline(self.segments())
    }

    /// An outline of the given segments, unless one of their coordinates
    /// exceeds the limit.
    pub fn new(segments: Vec<PathSegment>, x_max: i16) -> (r: Option<GlyphOutline>)
        ensures
            match r {
                Some(o) => {
                    &&& segments_in_outline(segments@)
                    &&& o.segments() == segments@
                    &&& o.x_max() == x_max
                    &&& o.wf()
                },
                None => !segments_in_outline(segments@),
            },
    {
        let n = segments.len();
        let mut i: usize = 0;
        while i < n
            invariant
                n == segments@.len(),
                i <= n,
                forall|k: int| 0 <= k < i ==> segment_in_outline(#[trigger] segments@[k]),
            decreases n - i,
        {
            if !fits_outline(segments[i]) {
                return None;
            }
            i += 1;
        }
        Some(GlyphOutline { segments, x_max })
    }

    /// The segments of the outline.
    pub fn as_segments(&self) -> (s: &Vec<PathSegment>)
        ensures
            s@ == self.segments(),
            self.wf(),
    {
        proof {
            use_type_invariant(self);
        }
        &self.segments
    }

    /// The largest horizontal extent of the outline.
    pub fn extent(&self) -> (x: i16)
        ensures
            x == self.x_max(),
    {
        self.x_max
    }
}

/// What the placing of glyphs reads from a font besides the outlines: its
/// scale, and the advance of a glyph that has no outline.
#[derive(Clone, Copy, Debug, PartialEq, Eq, Structural)]
pub struct FontMetrics {
    pub units_per_em: u16,
    pub space_advance: u16,
}

/// A font: the parsed face, and the outline of each glyph that has one, by
/// glyph identifier.
pub struct Font<'a> {
    face: rustybuzz::Face<'a>,
    outlines: Vec<Option<GlyphOutline>>,
}

impl<'a> Font<'a> {
    /// The parsed face.
    pub closed spec fn face(&self) -> rustybuzz::Face<'a> {
        self.face
    }

    /// The outlines by glyph identifier.
    pub closed spec fn outlines(&self) -> Seq<Option<GlyphOutline>> {
        self.outlines@
    }

    /// The outline of a glyph, if the font holds one for it.
    pub open spec fn outline_of(&self, glyph: int) -> Option<GlyphOutline> {
        if 0 <= glyph < self.outlines().len() {
            self.outlines()[glyph]
        } else {
            None
        }
    }

    /// The advance of a glyph without an outline: that of the glyph of the
    /// space character, or zero where the face has no such glyph or no
    /// advance for it.
    pub open spec fn space_advance(&self) -> u16 {
        match face_glyph_index(self.face(), ' ') {
            Some(glyph) => match face_hor_advance(self.face(), glyph) {
                Some(advance) => advance,
                None => 0,
            },
            None => 0,
        }
    }

    /// The metrics that the face gives.
    pub open spec fn metrics_of(&self) -> FontMetrics {
        FontMetrics {
            units_per_em: face_units_per_em(self.face()) as u16,
            space_advance: self.space_advance(),
        }
    }

    /// The glyphs that the face makes of a stretch of text.
    pub open spec fn glyphs_of(&self, text: Seq<char>, start: int, end: int, rtl: bool) -> Seq<u32> {
        shaped_glyph_ids(self.face(), text, start, end, rtl, SCRIPT_TAG)
    }

    /// A font of a face and the outlines of its glyphs.
    pub fn new(face: rustybuzz::Face<'a>, outlines: Vec<Option<GlyphOutline>>) -> (font: Font<'a>)
        ensures
            font.face() == face,
            font.outlines() == outlines@,
    {
        Font { face, outlines }
    }

    /// The outline of a glyph, if the font holds one for it.
    pub fn outline(&self, glyph: u16) -> (r: Option<&GlyphOutline>)
        ensures
            match r {
                Some(o) => self.outline_of(glyph as int) == Some(*o),
                None => self.outline_of(glyph as int).is_none(),
            },
    {
        let index = glyph as usize;
        if index < self.outlines.len() {
            self.outlines[index].as_ref()
        } else {
            None
        }
    }

    /// Reads the metrics from the face.
    pub fn metrics(&self) -> (m: FontMetrics)
        ensures
            m == self.metrics_of(),
            16 <= m.units_per_em <= 16384,
    {
        let upm = units_per_em(&self.face);
        let space_advance = match glyph_index(&self.face, ' ') {
            Some(glyph) => match glyph_hor_advance(&self.face, glyph) {
                Some(advance) => advance,
                None => 0,
            },
            None => 0,
        };
        FontMetrics { units_per_em: upm as u16, space_advance }
    }

    /// Shapes the bytes `start..end` of a text in the given direction.
    pub(crate) fn shape(&self, text: &str, start: usize, end: usize, rtl: bool) -> (glyphs: Vec<u32>)
        requires
            start <= end <= text.spec_bytes().len(),
            is_char_boundary(text.spec_bytes(), start as int),
            is_char_boundary(text.spec_bytes(), end as int),
        ensures
            glyphs@ == self.glyphs_of(text@, start as int, end as int, rtl),
            forall|i: int| 0 <= i < glyphs@.len() ==> #[trigger] glyphs@[i] <= u16::MAX,
    {
        shape_run(&self.face, text, start, end, rtl, SCRIPT_TAG)
    }
}

} // verus!
