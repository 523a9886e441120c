use text2path::{
    Font, FontMetrics, FontTable, GlyphOutline, PathSegment, SVGPathBuilder, TextPath,
};

// A font of two glyphs: the missing-glyph box and the letter A, 1000 units
// per em, without a glyph for the space.
const DEMO_FONT: [u8; 400] = [
    0x00, 0x01, 0x00, 0x00, 0x00, 0x07, 0x00, 0x40, 0x00, 0x02, 0x00, 0x30, 0x63, 0x6d, 0x61, 0x70,
    0x00, 0x09, 0x00, 0x76, 0x00, 0x00, 0x01, 0x00, 0x00, 0x00, 0x00, 0x2c, 0x67, 0x6c, 0x79, 0x66,
    0xf1, 0xcb, 0x66, 0x98, 0x00, 0x00, 0x01, 0x34, 0x00, 0x00, 0x00, 0x5c, 0x68, 0x65, 0x61, 0x64,
    0xf2, 0x35, 0xdd, 0xf8, 0x00, 0x00, 0x00, 0x7c, 0x00, 0x00, 0x00, 0x36, 0x68, 0x68, 0x65, 0x61,
    0x06, 0x61, 0x00, 0xca, 0x00, 0x00, 0x00, 0xb4, 0x00, 0x00, 0x00, 0x24, 0x68, 0x6d, 0x74, 0x78,
    0x04, 0x74, 0x00, 0x6a, 0x00, 0x00, 0x00, 0xf8, 0x00, 0x00, 0x00, 0x08, 0x6c, 0x6f, 0x63, 0x61,
    0x00, 0x2e, 0x00, 0x14, 0x00, 0x00, 0x01, 0x2c, 0x00, 0x00, 0x00, 0x06, 0x6d, 0x61, 0x78, 0x70,
    0x00, 0x05, 0x00, 0x0b, 0x00, 0x00, 0x00, 0xd8, 0x00, 0x00, 0x00, 0x20, 0x00, 0x01, 0x00, 0x00,
    0x00, 0x01, 0x00, 0x00, 0xf5, 0x9c, 0x29, 0x44, 0x5f, 0x0f, 0x3c, 0xf5, 0x00, 0x02, 0x03, 0xe8,
    0x00, 0x00, 0x00, 0x00, 0xb4, 0x92, 0xf4, 0x00, 0x00, 0x00, 0x00, 0x00, 0xdc, 0x2f, 0xa6, 0x5c,
    0x00, 0x06, 0x00, 0x00, 0x02, 0x58, 0x02, 0xbc, 0x00, 0x00, 0x00, 0x03, 0x00, 0x02, 0x00, 0x00,
    0x00, 0x00, 0x00, 0x00, 0x00, 0x01, 0x00, 0x00, 0x04, 0x00, 0xfe, 0x70, 0x00, 0x00, 0x02, 0x58,
    0x00, 0x06, 0xff, 0xff, 0x02, 0x58, 0x00, 0x01, 0x00, 0x00, 0x00, 0x00, 0x00, 0x00, 0x00, 0x00,
    0x00, 0x00, 0x00, 0x00, 0x00, 0x00, 0x00, 0x02, 0x00, 0x01, 0x00, 0x00, 0x00, 0x02, 0x00, 0x0b,
    0x00, 0x02, 0x00, 0x00, 0x00, 0x00, 0x00, 0x00, 0x00, 0x00, 0x00, 0x00, 0x00, 0x00, 0x00, 0x00,
    0x00, 0x00, 0x00, 0x00, 0x00, 0x00, 0x00, 0x00, 0x02, 0x58, 0x00, 0x64, 0x02, 0x1c, 0x00, 0x06,
    0x00, 0x00, 0x00, 0x01, 0x00, 0x00, 0x00, 0x03, 0x00, 0x00, 0x00, 0x0c, 0x00, 0x04, 0x00, 0x20,
    0x00, 0x00, 0x00, 0x04, 0x00, 0x04, 0x00, 0x01, 0x00, 0x00, 0x00, 0x41, 0xff, 0xff, 0x00, 0x00,
    0x00, 0x41, 0xff, 0xff, 0xff, 0xc0, 0x00, 0x01, 0x00, 0x00, 0x00, 0x00, 0x00, 0x00, 0x00, 0x14,
    0x00, 0x2e, 0x00, 0x00, 0x00, 0x02, 0x00, 0x64, 0x00, 0x00, 0x02, 0x58, 0x02, 0xbc, 0x00, 0x03,
    0x00, 0x07, 0x00, 0x00, 0x33, 0x11, 0x21, 0x11, 0x25, 0x21, 0x11, 0x21, 0x64, 0x01, 0xf4, 0xfe,
    0x34, 0x01, 0xa4, 0xfe, 0x5c, 0x02, 0xbc, 0xfd, 0x44, 0x28, 0x02, 0x6c, 0x00, 0x02, 0x00, 0x06,
    0x00, 0x00, 0x02, 0x1d, 0x02, 0x90, 0x00, 0x02, 0x00, 0x0a, 0x00, 0x00, 0x13, 0x33, 0x03, 0x01,
    0x13, 0x33, 0x13, 0x23, 0x27, 0x23, 0x07, 0xad, 0xc4, 0x63, 0xfe, 0xf8, 0xda, 0x60, 0xdd, 0x59,
    0x3e, 0xef, 0x42, 0x01, 0x0b, 0x01, 0x40, 0xfd, 0xb5, 0x02, 0x90, 0xfd, 0x70, 0xc8, 0xc8, 0x00,
];

struct Collector {
    segments: Vec<PathSegment>,
}

fn steps(v: f32) -> i64 {
    (v as f64 * 1000.0).round() as i64
}

impl rustybuzz::ttf_parser::OutlineBuilder for Collector {
    fn move_to(&mut self, x: f32, y: f32) {
        self.segments.push(PathSegment::MoveTo(steps(x), steps(y)));
    }

    fn line_to(&mut self, x: f32, y: f32) {
        self.segments.push(PathSegment::LineTo(steps(x), steps(y)));
    }

    fn quad_to(&mut self, x1: f32, y1: f32, x: f32, y: f32) {
        self.segments.push(PathSegment::QuadTo(steps(x1), steps(y1), steps(x), steps(y)));
    }

    fn curve_to(&mut self, x1: f32, y1: f32, x2: f32, y2: f32, x: f32, y: f32) {
        self.segments.push(PathSegment::CubicTo(
            steps(x1),
            steps(y1),
            steps(x2),
            steps(y2),
            steps(x),
            steps(y),
        ));
    }

    fn close(&mut self) {
        self.segments.push(PathSegment::Close);
    }
}

fn face() -> rustybuzz::Face<'static> {
    rustybuzz::Face::from_slice(&DEMO_FONT, 0).unwrap()
}

fn outlines_of(face: &rustybuzz::Face<'_>) -> Vec<Option<GlyphOutline>> {
    (0..face.number_of_glyphs())
        .map(|id| {
            let mut collector = Collector { segments: Vec::new() };
            let bbox = face.outline_glyph(rustybuzz::ttf_parser::GlyphId(id), &mut collector)?;
            GlyphOutline::new(collector.segments, bbox.x_max)
        })
        .collect()
}

fn mark(v: i64, extent: i16) -> Option<GlyphOutline> {
    GlyphOutline::new(vec![PathSegment::MoveTo(0, v)], extent)
}

fn table(outlines: Vec<Option<GlyphOutline>>) -> FontTable<'static> {
    let mut fonts = FontTable::new();
    fonts.insert("demo".to_string(), Font::new(face(), outlines));
    fonts
}

fn request(text: &str, font: &str) -> TextPath {
    TextPath {
        x: 0,
        y: 0,
        text: text.to_string(),
        font: font.to_string(),
        font_size: 1_000_000,
        font_step: 0,
        not_reverse: true,
    }
}

fn segments(builder: SVGPathBuilder) -> Vec<PathSegment> {
    match builder.path() {
        Some(path) => path.segments,
        None => Vec::new(),
    }
}

#[test]
fn an_unknown_font_key_gives_no_result() {
    let fonts = table(vec![mark(0, 0), mark(1, 0)]);
    assert!(request("A", "other").to_path(&fonts).is_none());
    assert!(request("A", "").to_path(&fonts).is_none());
    assert!(request("A", "demo").to_path(&FontTable::new()).is_none());
    assert!(request("A", "demo").to_path(&fonts).is_some());
}

#[test]
fn an_empty_text_gives_no_result() {
    let fonts = table(vec![mark(0, 0), mark(1, 0)]);
    assert!(request("", "demo").to_path(&fonts).is_none());
    assert!(request("", "other").to_path(&fonts).is_none());
}

#[test]
fn a_later_font_replaces_an_earlier_one_under_the_same_key() {
    let mut fonts = FontTable::new();
    assert!(fonts.get(&"demo".to_string()).is_none());
    fonts.insert("demo".to_string(), Font::new(face(), vec![mark(0, 0), mark(1, 0)]));
    fonts.insert("second".to_string(), Font::new(face(), vec![mark(0, 0), mark(2, 0)]));
    fonts.insert("demo".to_string(), Font::new(face(), vec![mark(0, 0), mark(3, 0)]));
    assert!(fonts.get(&"third".to_string()).is_none());
    assert_eq!(segments(request("A", "demo").to_path(&fonts).unwrap()), vec![PathSegment::MoveTo(0, 3)]);
    assert_eq!(segments(request("A", "second").to_path(&fonts).unwrap()), vec![PathSegment::MoveTo(0, 2)]);
}

#[test]
fn the_metrics_are_read_from_the_face() {
    let font = Font::new(face(), Vec::new());
    // The font has no glyph for the space, so a missing outline moves nothing.
    assert_eq!(font.metrics(), FontMetrics { units_per_em: 1000, space_advance: 0 });
}

#[test]
fn a_glyph_is_looked_up_by_its_identifier() {
    let font = Font::new(face(), vec![None, mark(7, 5)]);
    assert!(font.outline(0).is_none());
    assert_eq!(font.outline(1).unwrap().extent(), 5);
    assert!(font.outline(2).is_none());
    assert!(font.outline(u16::MAX).is_none());
}

#[test]
fn the_letter_is_shaped_to_its_glyph_and_every_other_character_to_the_missing_glyph() {
    let fonts = table(vec![mark(100, 10), mark(200, 20)]);
    assert_eq!(
        segments(request("AbA", "demo").to_path(&fonts).unwrap()),
        vec![
            PathSegment::MoveTo(0, 200),
            PathSegment::MoveTo(20_000, 100),
            PathSegment::MoveTo(30_000, 200),
        ]
    );
}

#[test]
fn a_glyph_without_an_outline_adds_no_segments() {
    let fonts = table(vec![None, mark(200, 20)]);
    assert_eq!(
        segments(request("AbA", "demo").to_path(&fonts).unwrap()),
        vec![PathSegment::MoveTo(0, 200), PathSegment::MoveTo(20_000, 200)]
    );
    let fonts = table(Vec::new());
    assert!(request("AbA", "demo").to_path(&fonts).unwrap().path().is_none());
}

#[test]
fn mixed_directions_are_placed_in_visual_order() {
    let fonts = table(vec![mark(100, 10), mark(200, 20)]);
    // A Latin letter, then an Arabic one: the paragraph reads left to right.
    assert_eq!(
        segments(request("A\u{0628}", "demo").to_path(&fonts).unwrap()),
        vec![PathSegment::MoveTo(0, 200), PathSegment::MoveTo(20_000, 100)]
    );
    // The Arabic letter first: the paragraph reads right to left, and the
    // Latin letter, later in the text, is shown first.
    assert_eq!(
        segments(request("\u{0628}A", "demo").to_path(&fonts).unwrap()),
        vec![PathSegment::MoveTo(0, 200), PathSegment::MoveTo(20_000, 100)]
    );
    assert_eq!(
        segments(request("\u{0628}\u{0628}AA", "demo").to_path(&fonts).unwrap()),
        vec![
            PathSegment::MoveTo(0, 200),
            PathSegment::MoveTo(20_000, 200),
            PathSegment::MoveTo(40_000, 100),
            PathSegment::MoveTo(50_000, 100),
        ]
    );
}

#[test]
fn the_letter_spacing_separates_the_runs_of_a_text() {
    let fonts = table(vec![mark(100, 10), mark(200, 20)]);
    let mut tp = request("\u{0628}A", "demo");
    tp.font_step = 5000;
    tp.x = 1000;
    tp.y = -2000;
    assert_eq!(
        segments(tp.to_path(&fonts).unwrap()),
        vec![PathSegment::MoveTo(1000, -1800), PathSegment::MoveTo(26_000, -1900)]
    );
}

#[test]
fn only_the_first_paragraph_of_a_text_is_converted() {
    let fonts = table(vec![None, mark(200, 20)]);
    assert_eq!(
        segments(request("A\nAAA", "demo").to_path(&fonts).unwrap()),
        vec![PathSegment::MoveTo(0, 200)]
    );
}

#[test]
fn the_outline_of_the_letter_is_placed_as_the_font_draws_it() {
    let face = face();
    let outlines = outlines_of(&face);
    assert_eq!(outlines.len(), 2);
    let fonts = table(outlines);
    let text = request("A", "demo").to_path(&fonts).unwrap().path_raw(None).unwrap();
    assert_eq!(
        text,
        "M 173 267 L 369 267 L 270 587 L 173 267 Z M 6 0 L 224 656 L 320 656 L 541 0 L 452 0 \
         L 390 200 L 151 200 L 85 0 L 6 0 Z"
    );
}

#[test]
fn the_outline_is_scaled_to_the_size_of_an_em_and_turned_over() {
    let fonts = table(outlines_of(&face()));
    let mut tp = request("AA", "demo");
    tp.x = 20_000;
    tp.y = 100_000;
    tp.font_size = 64_000;
    tp.not_reverse = false;
    let placed = segments(tp.to_path(&fonts).unwrap());
    assert_eq!(placed.len(), 30);
    // 173 * 0.064 = 11.072 and 267 * 0.064 = 17.088.
    assert_eq!(placed[0], PathSegment::MoveTo(31_072, 82_912));
    // The second letter starts 541 * 0.064 = 34.624 further on.
    assert_eq!(placed[15], PathSegment::MoveTo(65_696, 82_912));
    assert_eq!(placed[14], PathSegment::Close);
}
