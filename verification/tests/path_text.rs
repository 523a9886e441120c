use text2path::number::push_coord;
use text2path::{path_raw, Path, PathSegment, SVGPathBuilder};

fn coord(v: i64) -> String {
    let mut out = String::new();
    push_coord(&mut out, v);
    out
}

fn path_of(segments: Vec<PathSegment>) -> Path {
    Path { segments }
}

#[test]
fn empty_path_has_empty_text() {
    assert_eq!(path_raw(&Path::new()), Ok(String::new()));
}

#[test]
fn empty_builder_has_no_path_and_empty_text() {
    assert!(SVGPathBuilder::new().path().is_none());
    assert_eq!(SVGPathBuilder::new().path_raw(None), Ok(String::new()));
    assert_eq!(SVGPathBuilder::default().path_raw(None), Ok(String::new()));
}

#[test]
fn whole_units_are_written_without_a_point() {
    assert_eq!(coord(0), "0");
    assert_eq!(coord(1000), "1");
    assert_eq!(coord(20_000), "20");
    assert_eq!(coord(-7000), "-7");
    assert_eq!(coord(1_234_567_000), "1234567");
}

#[test]
fn thousandths_drop_their_trailing_zeros() {
    assert_eq!(coord(1500), "1.5");
    assert_eq!(coord(1230), "1.23");
    assert_eq!(coord(1234), "1.234");
    assert_eq!(coord(1004), "1.004");
    assert_eq!(coord(1040), "1.04");
    assert_eq!(coord(38_562), "38.562");
}

#[test]
fn small_and_negative_values_keep_a_leading_zero() {
    assert_eq!(coord(1), "0.001");
    assert_eq!(coord(-1), "-0.001");
    assert_eq!(coord(-250), "-0.25");
    assert_eq!(coord(999), "0.999");
    assert_eq!(coord(-500), "-0.5");
}

#[test]
fn the_ends_of_the_range_are_written_in_full() {
    assert_eq!(coord(i64::MAX), "9223372036854775.807");
    assert_eq!(coord(i64::MIN), "-9223372036854775.808");
}

#[test]
fn push_coord_appends_to_what_is_there() {
    let mut out = String::from("x=");
    push_coord(&mut out, 2500);
    assert_eq!(out, "x=2.5");
}

#[test]
fn each_command_has_its_letter_and_fields() {
    assert_eq!(path_raw(&path_of(vec![PathSegment::MoveTo(1000, 2000)])).unwrap(), "M 1 2");
    assert_eq!(path_raw(&path_of(vec![PathSegment::LineTo(3500, -250)])).unwrap(), "L 3.5 -0.25");
    assert_eq!(
        path_raw(&path_of(vec![PathSegment::QuadTo(1000, 2000, 3000, 4000)])).unwrap(),
        "Q 1 2 3 4"
    );
    assert_eq!(
        path_raw(&path_of(vec![PathSegment::CubicTo(1000, 2000, 3000, 4000, 5000, 6000)])).unwrap(),
        "C 1 2 3 4 5 6"
    );
    assert_eq!(path_raw(&path_of(vec![PathSegment::Close])).unwrap(), "Z");
}

#[test]
fn commands_are_separated_by_single_spaces_without_a_trailing_one() {
    let path = path_of(vec![
        PathSegment::MoveTo(0, 0),
        PathSegment::LineTo(10_000, 0),
        PathSegment::QuadTo(15_000, 5000, 10_000, 10_000),
        PathSegment::CubicTo(8000, 12_000, 2000, 12_000, 0, 10_000),
        PathSegment::Close,
    ]);
    let text = path_raw(&path).unwrap();
    assert_eq!(text, "M 0 0 L 10 0 Q 15 5 10 10 C 8 12 2 12 0 10 Z");
    assert!(!text.ends_with(' '));
    assert!(!text.starts_with(' '));
    assert!(!text.contains("  "));
}

#[test]
fn text_tells_paths_apart() {
    let a = path_of(vec![PathSegment::MoveTo(1000, 2000), PathSegment::Close]);
    let b = path_of(vec![PathSegment::LineTo(1000, 2000), PathSegment::Close]);
    let c = path_of(vec![PathSegment::MoveTo(1000, 2001), PathSegment::Close]);
    let d = path_of(vec![PathSegment::MoveTo(1000, 2000)]);
    let texts = vec![
        path_raw(&a).unwrap(),
        path_raw(&b).unwrap(),
        path_raw(&c).unwrap(),
        path_raw(&d).unwrap(),
    ];
    assert_eq!(texts, vec!["M 1 2 Z", "L 1 2 Z", "M 1 2.001 Z", "M 1 2"]);
}

#[test]
fn text_names_the_same_commands_and_coordinates_as_the_path() {
    let segments = vec![
        PathSegment::MoveTo(-1500, 20),
        PathSegment::QuadTo(1, 2, 3, 4),
        PathSegment::Close,
        PathSegment::MoveTo(7000, 7000),
        PathSegment::CubicTo(-1, -2, -3, -4, -5, -6),
    ];
    let text = path_raw(&path_of(segments.clone())).unwrap();
    let words: Vec<&str> = text.split(' ').collect();
    let mut read: Vec<PathSegment> = Vec::new();
    let mut at = 0;
    while at < words.len() {
        let fields = match words[at] {
            "M" | "L" => 2,
            "Q" => 4,
            "C" => 6,
            _ => 0,
        };
        let v: Vec<i64> = words[at + 1..at + 1 + fields]
            .iter()
            .map(|w| (w.parse::<f64>().unwrap() * 1000.0).round() as i64)
            .collect();
        read.push(match words[at] {
            "M" => PathSegment::MoveTo(v[0], v[1]),
            "L" => PathSegment::LineTo(v[0], v[1]),
            "Q" => PathSegment::QuadTo(v[0], v[1], v[2], v[3]),
            "C" => PathSegment::CubicTo(v[0], v[1], v[2], v[3], v[4], v[5]),
            "Z" => PathSegment::Close,
            other => panic!("unknown command {}", other),
        });
        at += 1 + fields;
    }
    assert_eq!(read, segments);
}

#[test]
fn a_copy_of_a_path_holds_the_same_segments() {
    let path = path_of(vec![PathSegment::MoveTo(1, 2), PathSegment::LineTo(3, 4)]);
    let copy = path.duplicate();
    assert_eq!(copy.segments, path.segments);
    assert_eq!(path.len(), 2);
    assert!(!path.is_empty());
}
