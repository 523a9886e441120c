//! The directional runs of a text, in the order in which they are shown.

use vstd::prelude::*;
use vstd::string::*;
use vstd::utf8::is_char_boundary;

verus! {

/// The runs that the bidirectional algorithm makes of a text with automatic
/// base direction: for each paragraph its runs in visual order, each as the
/// bytes where it starts and ends and its embedding level.
pub uninterp spec fn bidi_visual_runs(text: Seq<char>) -> Seq<Seq<(usize, usize, u8)>>;

/// Whether `start..end` is a stretch of whole characters of the text.
pub open spec fn within_text(text: &str, start: usize, end: usize) -> bool {
    &&& start <= end <= text.spec_bytes().len()
    &&& is_char_boundary(text.spec_bytes(), start as int)
    &&& is_char_boundary(text.spec_bytes(), end as int)
}

/// `unicode_bidi::BidiInfo::new` without a default level, then
/// `BidiInfo::visual_runs` on the whole of each paragraph. A text has a
/// paragraph unless it is empty; each run is a stretch of whole characters
/// of the text, and its level is the one at its first byte.
#[verifier::external_body]
fn visual_runs_by_paragraph(text: &str) -> (paragraphs: Vec<Vec<(usize, usize, u8)>>)
    ensures
        paragraphs.deep_view() == bidi_visual_runs(text@),
        (paragraphs@.len() == 0) == (text@.len() == 0),
        forall|p: int, r: int|
            0 <= p < paragraphs@.len() && 0 <= r < paragraphs@[p]@.len() ==> within_text(
                text,
                (#[trigger] paragraphs@[p]@[r]).0,
                paragraphs@[p]@[r].1,
            ),
{
    let info = unicode_bidi::BidiInfo::new(text, None);
    info.paragraphs.iter().map(
        |para|
            {
                let (levels, runs) = info.visual_runs(para, para.range.clone());
                runs.into_iter().map(|run| (run.start, run.end, levels[run.start].number())).collect()
            },
    ).collect()
}

/// The direction in which a run is read.
#[derive(Clone, Copy, Debug, PartialEq, Eq, Structural)]
pub enum Direction {
    LeftToRight,
    RightToLeft,
}

/// A stretch of text with one embedding level.
#[derive(Clone, Copy, Debug, PartialEq, Eq, Structural)]
pub struct DirectionalRun {
    /// The byte at which the run starts.
    pub start: usize,
    /// The byte before which the run ends.
    pub end: usize,
    /// The embedding level of the run.
    pub level: u8,
    /// The direction that the level stands for.
    pub direction: Direction,
}

/// An even level reads from left to right, an odd one from right to left.
pub open spec fn direction_of(level: u8) -> Direction {
    if level % 2 == 0 {
        Direction::LeftToRight
    } else {
        Direction::RightToLeft
    }
}

/// The run with its direction resolved.
pub open spec fn run_of(raw: (usize, usize, u8)) -> DirectionalRun {
    DirectionalRun { start: raw.0, end: raw.1, level: raw.2, direction: direction_of(raw.2) }
}

/// The runs of the first paragraph, each with its direction, or nothing
/// where there is no paragraph.
pub open spec fn first_paragraph(paragraphs: Seq<Seq<(usize, usize, u8)>>) -> Option<
    Seq<DirectionalRun>,
> {
    if paragraphs.len() == 0 {
        None
    } else {
        Some(paragraphs[0].map_values(|raw: (usize, usize, u8)| run_of(raw)))
    }
}

/// The runs that a conversion of the text goes through: those of its first
/// paragraph, or none where it has no paragraph.
pub open spec fn resolved_runs(text: Seq<char>) -> Seq<DirectionalRun> {
    match first_paragraph(bidi_visual_runs(text)) {
        Some(runs) => runs,
        None => Seq::empty(),
    }
}

/// Resolves the direction of a level.
pub fn resolve_direction(level: u8) -> (d: Direction)
    ensures
        d == direction_of(level),
{
    if level % 2 == 0 {
        Direction::LeftToRight
    } else {
        Direction::RightToLeft
    }
}

/// Takes the runs of the first paragraph and resolves their directions.
pub fn first_paragraph_runs(paragraphs: &Vec<Vec<(usize, usize, u8)>>) -> (r: Option<
    Vec<DirectionalRun>,
>)
    ensures
        match r {
            Some(runs) => first_paragraph(paragraphs.deep_view()) == Some(runs@),
            None => first_paragraph(paragraphs.deep_view()).is_none(),
        },
{
    if paragraphs.len() == 0 {
        return None;
    }
    let first = &paragraphs[0];
    let mut runs: Vec<DirectionalRun> = Vec::new();
    let n = first.len();
    let mut i: usize = 0;
    while i < n
        invariant
            n == first@.len(),
            i <= n,
            runs@.len() == i,
            forall|k: int| 0 <= k < i ==> runs@[k] == run_of(#[trigger] first@[k]),
        decreases n - i,
    {
        let raw = first[i];
        runs.push(
            DirectionalRun {
                start: raw.0,
                end: raw.1,
                level: raw.2,
                direction: resolve_direction(raw.2),
            },
        );
        i += 1;
    }
    proof {
        assert(paragraphs.deep_view()[0] =~= first@);
        assert(runs@ =~= first@.map_values(|raw: (usize, usize, u8)| run_of(raw)));
    }
    Some(runs)
}

/// The runs of the first paragraph of a text, or nothing where the text is
/// empty and so has no paragraph. Each run is a stretch of whole characters.
pub fn paragraph_runs(text: &str) -> (r: Option<Vec<DirectionalRun>>)
    ensures
        match r {
            Some(runs) => {
                &&& first_paragraph(bidi_visual_runs(text@)) == Some(runs@)
                &&& forall|i: int|
                    0 <= i < runs@.len() ==> within_text(
                        text,
                        (#[trigger] runs@[i]).start,
                        runs@[i].end,
                    )
            },
            None => first_paragraph(bidi_visual_runs(text@)).is_none(),
        },
        r.is_none() == (text@.len() == 0),
{
    let paragraphs = visual_runs_by_paragraph(text);
    let r = first_paragraph_runs(&paragraphs);
    proof {
        if paragraphs@.len() > 0 {
            assert(paragraphs.deep_view()[0] =~= paragraphs@[0]@);
            let runs = r.unwrap();
            assert forall|i: int| 0 <= i < runs@.len() implies within_text(
                text,
                (#[trigger] runs@[i]).start,
                runs@[i].end,
            ) by {
                assert(runs@[i] == run_of(paragraphs@[0]@[i]));
            }
        }
    }
    r
}

/// Splits a text into the runs that a conversion goes through, in the order
/// in which they are shown. A text without a paragraph has no runs.
pub fn resolve_runs(text: &str) -> (runs: Vec<DirectionalRun>)
    ensures
        runs@ == resolved_runs(text@),
        text@.len() == 0 ==> runs@.len() == 0,
{
    match paragraph_runs(text) {
        Some(runs) => runs,
        None => Vec::new(),
    }
}

} // verus!
