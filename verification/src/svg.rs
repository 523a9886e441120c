//! The collector of placed outlines, and the text form of a path.

use crate::number::{coord_text, push_coord};
use crate::segment::{Path, PathSegment, Transform};
use crate::sink::OutlineSink;
use vstd::prelude::*;

verus! {

/// The words that one segment is written with: the letter of its command,
/// then its coordinates in their order.
pub open spec fn segment_tokens(seg: PathSegment) -> Seq<Seq<char>> {
    match seg {
        PathSegment::MoveTo(x, y) => seq![seq!['M'], coord_text(x as int), coord_text(y as int)],
        PathSegment::LineTo(x, y) => seq![seq!['L'], coord_text(x as int), coord_text(y as int)],
        PathSegment::QuadTo(x1, y1, x, y) => seq![
            seq!['Q'],
            coord_text(x1 as int),
            coord_text(y1 as int),
            coord_text(x as int),
            coord_text(y as int),
        ],
        PathSegment::CubicTo(x1, y1, x2, y2, x, y) => seq![
            seq!['C'],
            coord_text(x1 as int),
            coord_text(y1 as int),
            coord_text(x2 as int),
            coord_text(y2 as int),
            coord_text(x as int),
            coord_text(y as int),
        ],
        PathSegment::Close => seq![seq!['Z']],
    }
}

/// The words of all segments, in their order.
pub open spec fn path_tokens(segs: Seq<PathSegment>) -> Seq<Seq<char>>
    decreases segs.len(),
{
    if segs.len() == 0 {
        Seq::empty()
    } else {
        path_tokens(segs.drop_last()) + segment_tokens(segs.last())
    }
}

/// The words with one space between neighbours, and none at either end.
pub open spec fn joined(words: Seq<Seq<char>>) -> Seq<char>
    decreases words.len(),
{
    if words.len() == 0 {
        Seq::empty()
    } else if words.len() == 1 {
        words[0]
    } else {
        joined(words.drop_last()) + seq![' '] + words.last()
    }
}

/// The text form of a path. The empty path has the empty text.
pub open spec fn path_text(segs: Seq<PathSegment>) -> Seq<char> {
    joined(path_tokens(segs))
}

/// A path has at least as many words as segments.
pub proof fn lemma_path_tokens_len(segs: Seq<PathSegment>)
    ensures
        path_tokens(segs).len() >= segs.len(),
    decreases segs.len(),
{
    if segs.len() > 0 {
        lemma_path_tokens_len(segs.drop_last());
    }
}

/// The failure of writing a number as text. It is kept apart from the
/// absence of a result.
#[derive(Clone, Copy, Debug, PartialEq, Eq, Structural)]
pub struct FormatError;

fn put_word(out: &mut String, started: bool, word: &str, Ghost(done): Ghost<Seq<Seq<char>>>)
    requires
        old(out)@ == joined(done),
        started == (done.len() > 0),
    ensures
        final(out)@ == joined(done.push(word@)),
{
    if started {
        out.append(" ");
    }
    out.append(word);
    proof {
        reveal_strlit(" ");
        assert(done.push(word@).drop_last() =~= done);
        assert(out@ =~= joined(done.push(word@)));
    }
}

fn put_coord(out: &mut String, v: i64, Ghost(done): Ghost<Seq<Seq<char>>>)
    requires
        old(out)@ == joined(done),
        done.len() > 0,
    ensures
        final(out)@ == joined(done.push(coord_text(v as int))),
{
    out.append(" ");
    push_coord(out, v);
    proof {
        reveal_strlit(" ");
        assert(done.push(coord_text(v as int)).drop_last() =~= done);
        assert(out@ =~= joined(done.push(coord_text(v as int))));
    }
}

fn put_segment(out: &mut String, started: bool, seg: PathSegment, Ghost(done): Ghost<Seq<Seq<char>>>)
    requires
        old(out)@ == joined(done),
        started == (done.len() > 0),
    ensures
        final(out)@ == joined(done + segment_tokens(seg)),
{
    proof {
        reveal_strlit("M");
        reveal_strlit("L");
        reveal_strlit("Q");
        reveal_strlit("C");
        reveal_strlit("Z");
        assert("M"@ =~= seq!['M']);
        assert("L"@ =~= seq!['L']);
        assert("Q"@ =~= seq!['Q']);
        assert("C"@ =~= seq!['C']);
        assert("Z"@ =~= seq!['Z']);
    }
    match seg {
        PathSegment::MoveTo(x, y) => {
            put_word(out, started, "M", Ghost(done));
            let ghost d1 = done.push("M"@);
            put_coord(out, x, Ghost(d1));
            let ghost d2 = d1.push(coord_text(x as int));
            put_coord(out, y, Ghost(d2));
            assert(d2.push(coord_text(y as int)) =~= done + segment_tokens(seg));
        },
        PathSegment::LineTo(x, y) => {
            put_word(out, started, "L", Ghost(done));
            let ghost d1 = done.push("L"@);
            put_coord(out, x, Ghost(d1));
            let ghost d2 = d1.push(coord_text(x as int));
            put_coord(out, y, Ghost(d2));
            assert(d2.push(coord_text(y as int)) =~= done + segment_tokens(seg));
        },
        PathSegment::QuadTo(x1, y1, x, y) => {
            put_word(out, started, "Q", Ghost(done));
            let ghost d1 = done.push("Q"@);
            put_coord(out, x1, Ghost(d1));
            let ghost d2 = d1.push(coord_text(x1 as int));
            put_coord(out, y1, Ghost(d2));
            let ghost d3 = d2.push(coord_text(y1 as int));
            put_coord(out, x, Ghost(d3));
            let ghost d4 = d3.push(coord_text(x as int));
            put_coord(out, y, Ghost(d4));
            assert(d4.push(coord_text(y as int)) =~= done + segment_tokens(seg));
        },
        PathSegment::CubicTo(x1, y1, x2, y2, x, y) => {
            put_word(out, started, "C", Ghost(done));
            let ghost d1 = done.push("C"@);
            put_coord(out, x1, Ghost(d1));
            let ghost d2 = d1.push(coord_text(x1 as int));
            put_coord(out, y1, Ghost(d2));
            let ghost d3 = d2.push(coord_text(y1 as int));
            put_coord(out, x2, Ghost(d3));
            let ghost d4 = d3.push(coord_text(x2 as int));
            put_coord(out, y2, Ghost(d4));
            let ghost d5 = d4.push(coord_text(y2 as int));
            put_coord(out, x, Ghost(d5));
            let ghost d6 = d5.push(coord_text(x as int));
            put_coord(out, y, Ghost(d6));
            assert(d6.push(coord_text(y as int)) =~= done + segment_tokens(seg));
        },
        PathSegment::Close => {
            put_word(out, started, "Z", Ghost(done));
            assert(done.push("Z"@) =~= done + segment_tokens(seg));
        },
    }
}

/// Writes a path as text: for each segment the letter of its command and its
/// coordinates, all separated by single spaces.
pub fn path_raw(path: &Path) -> (r: Result<String, FormatError>)
    ensures
        r matches Ok(text) && text@ == path_text(path@),
{
    let mut out = String::new();
    let n = path.len();
    let mut i: usize = 0;
    assert(path@.take(0) =~= Seq::<PathSegment>::empty());
    while i < n
        invariant
            n == path@.len(),
            i <= n,
            out@ == path_text(path@.take(i as int)),
            (i > 0) == (path_tokens(path@.take(i as int)).len() > 0),
        decreases n - i,
    {
        put_segment(&mut out, i > 0, path.segments[i], Ghost(path_tokens(path@.take(i as int))));
        proof {
            let next = path@.take(i + 1);
            assert(next.drop_last() =~= path@.take(i as int));
            assert(next.last() == path@[i as int]);
            lemma_path_tokens_len(next);
        }
        i += 1;
    }
    assert(path@.take(n as int) =~= path@);
    Ok(out)
}

/// Collects the outlines of a text: the glyph being drawn, in the units of
/// its font, and the glyphs already placed, in the units of the document.
pub struct SVGPathBuilder {
    builder: Path,
    current: Path,
}

impl SVGPathBuilder {
    /// The segments of the glyphs placed so far.
    pub closed spec fn placed(&self) -> Seq<PathSegment> {
        self.builder@
    }

    /// A builder that holds nothing.
    pub fn new() -> (b: SVGPathBuilder)
        ensures
            b.placed() == Seq::<PathSegment>::empty(),
            b.received() == Seq::<PathSegment>::empty(),
    {
        SVGPathBuilder { builder: Path::new(), current: Path::new() }
    }

    /// The path of the placed glyphs, or nothing where none has a segment.
    pub fn path(self) -> (r: Option<Path>)
        ensures
            match r {
                Some(p) => p@ == self.placed() && p@.len() > 0,
                None => self.placed().len() == 0,
            },
    {
        if self.builder.is_empty() {
            None
        } else {
            Some(self.builder)
        }
    }

    /// The text of the placed glyphs' path under `ts`, or as it is without
    /// one. The text is empty where the path is empty or does not fit under
    /// the transform.
    pub fn path_raw(self, ts: Option<Transform>) -> (r: Result<String, FormatError>)
        ensures
            r matches Ok(text) && text@ == (match ts {
                Some(t) => match t.image(self.placed()) {
                    Some(moved) => path_text(moved),
                    None => Seq::empty(),
                },
                None => path_text(self.placed()),
            }),
    {
        match ts {
            Some(t) => match self.builder.transform(t) {
                Some(moved) => path_raw(&moved),
                None => Ok(String::new()),
            },
            None => path_raw(&self.builder),
        }
    }

    /// Takes one segment of the glyph being drawn.
    pub fn accept(&mut self, seg: PathSegment)
        ensures
            final(self).received() == old(self).received().push(seg),
            final(self).placed() == old(self).placed(),
    {
        match seg {
            PathSegment::MoveTo(x, y) => self.move_to(x, y),
            PathSegment::LineTo(x, y) => self.line_to(x, y),
            PathSegment::QuadTo(x1, y1, x, y) => self.quad_to(x1, y1, x, y),
            PathSegment::CubicTo(x1, y1, x2, y2, x, y) => self.curve_to(x1, y1, x2, y2, x, y),
            PathSegment::Close => self.close(),
        }
    }

    /// Takes the segments of an outline into the glyph being drawn.
    pub fn draw(&mut self, segments: &Vec<PathSegment>)
        ensures
            final(self).received() == old(self).received() + segments@,
            final(self).placed() == old(self).placed(),
    {
        let n = segments.len();
        let mut i: usize = 0;
        while i < n
            invariant
                n == segments@.len(),
                i <= n,
                self.received() == old(self).received() + segments@.subrange(0, i as int),
                self.placed() == old(self).placed(),
            decreases n - i,
        {
            self.accept(segments[i]);
            assert(segments@.subrange(0, i + 1) =~= segments@.subrange(0, i as int).push(
                segments@[i as int],
            ));
            i += 1;
        }
        assert(segments@.subrange(0, n as int) =~= segments@);
    }

    /// Places the glyph being drawn: its segments go under `ts` to the end
    /// of the placed ones, unless one of them does not fit, and the glyph
    /// being drawn is empty again.
    pub fn clear(&mut self, ts: Transform)
        ensures
            final(self).placed() == (match ts.image(old(self).received()) {
                Some(moved) => old(self).placed() + moved,
                None => old(self).placed(),
            }),
            final(self).received() == Seq::<PathSegment>::empty(),
    {
        match self.current.transform(ts) {
            Some(moved) => {
                self.builder.push_path(&moved);
            },
            None => {},
        }
        self.current.clear();
    }
}

impl Default for SVGPathBuilder {
    fn default() -> (b: SVGPathBuilder)
        ensures
            b.placed() == Seq::<PathSegment>::empty(),
            b.received() == Seq::<PathSegment>::empty(),
    {
        SVGPathBuilder::new()
    }
}

impl OutlineSink for SVGPathBuilder {
    closed spec fn received(&self) -> Seq<PathSegment> {
        self.current@
    }

    fn move_to(&mut self, x: i64, y: i64)
        ensures
            final(self).placed() == old(self).placed(),
    {
        self.current.push(PathSegment::MoveTo(x, y));
    }

    fn line_to(&mut self, x: i64, y: i64)
        ensures
            final(self).placed() == old(self).placed(),
    {
        self.current.push(PathSegment::LineTo(x, y));
    }

    fn quad_to(&mut self, x1: i64, y1: i64, x: i64, y: i64)
        ensures
            final(self).placed() == old(self).placed(),
    {
        self.current.push(PathSegment::QuadTo(x1, y1, x, y));
    }

    fn curve_to(&mut self, x1: i64, y1: i64, x2: i64, y2: i64, x: i64, y: i64)
        ensures
            final(self).placed() == old(self).placed(),
    {
        self.current.push(PathSegment::CubicTo(x1, y1, x2, y2, x, y));
    }

    fn close(&mut self)
        ensures
            final(self).placed() == old(self).placed(),
    {
        self.current.push(PathSegment::Close);
    }
}

} // verus!
