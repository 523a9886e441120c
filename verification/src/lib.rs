//! Text to vector paths: a line of text, shaped with a font, becomes a
//! sequence of move, line, curve and close segments in document space.
//!
//! Every coordinate is a signed count of thousandths of a unit, held in an
//! `i64`: every value has a finite decimal form, and wherever a quotient is
//! rounded, it is rounded toward zero.

pub mod bidi;
pub mod curve;
pub mod font;
pub mod mirror;
pub mod number;
pub mod pdf;
pub mod reading;
pub mod segment;
pub mod sink;
pub mod svg;
pub mod table;
pub mod text;

pub use crate::bidi::{resolve_runs, Direction, DirectionalRun};
pub use crate::curve::{quadratic_to_cubic, Point};
pub use crate::font::{Font, FontMetrics, GlyphOutline};
pub use crate::pdf::PDFPathBuilder;
pub use crate::segment::{Path, PathSegment, Transform};
pub use crate::sink::OutlineSink;
pub use crate::svg::{path_raw, FormatError, SVGPathBuilder};
pub use crate::table::FontTable;
pub use crate::text::TextPath;
