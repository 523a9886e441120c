use text2path::{quadratic_to_cubic, OutlineSink, PDFPathBuilder, Path, PathSegment, Point};

fn p(x: i64, y: i64) -> Point {
    Point { x, y }
}

fn cubic_middle_8(a: i128, b: i128, c: i128, d: i128) -> i128 {
    a + 3 * b + 3 * c + d
}

fn quadratic_middle_8(a: i128, b: i128, c: i128) -> i128 {
    2 * (a + 2 * b + c)
}

#[test]
fn control_points_lie_two_thirds_of_the_way_to_the_control() {
    let q = quadratic_to_cubic(p(0, 0), p(3000, 3000), p(6000, 0));
    assert_eq!(q, (p(0, 0), p(2000, 2000), p(4000, 2000), p(6000, 0)));
}

#[test]
fn elevation_keeps_the_ends() {
    let q = quadratic_to_cubic(p(-17, 5), p(400, -300), p(123, 456));
    assert_eq!(q.0, p(-17, 5));
    assert_eq!(q.3, p(123, 456));
}

#[test]
fn two_thirds_round_toward_zero_on_both_sides() {
    // 2/3 of 1 is 0, 2/3 of -1 is 0, 2/3 of 2 is 1, 2/3 of -2 is -1.
    let q = quadratic_to_cubic(p(0, 0), p(1, -1), p(2, 2));
    assert_eq!(q.1, p(0, 0));
    assert_eq!(q.2, p(2, 2 - 2));
    let q = quadratic_to_cubic(p(0, 0), p(2, -2), p(0, 0));
    assert_eq!(q.1, p(1, -1));
    assert_eq!(q.2, p(1, -1));
}

#[test]
fn elevated_cubic_agrees_with_the_quadratic_at_its_start_middle_and_end() {
    let cases = vec![
        (p(0, 0), p(3000, 3000), p(6000, 0)),
        (p(0, 0), p(1, 1), p(2, 0)),
        (p(-1000, 250), p(777, -3), p(12, 99_999)),
        (p(5, 5), p(5, 5), p(5, 5)),
    ];
    for (p0, p1, p2) in cases {
        let q = quadratic_to_cubic(p0, p1, p2);
        assert_eq!(q.0, p0);
        assert_eq!(q.3, p2);
        let dx = cubic_middle_8(q.0.x as i128, q.1.x as i128, q.2.x as i128, q.3.x as i128)
            - quadratic_middle_8(p0.x as i128, p1.x as i128, p2.x as i128);
        let dy = cubic_middle_8(q.0.y as i128, q.1.y as i128, q.2.y as i128, q.3.y as i128)
            - quadratic_middle_8(p0.y as i128, p1.y as i128, p2.y as i128);
        assert!(-4 <= dx && dx <= 4);
        assert!(-4 <= dy && dy <= 4);
    }
}

#[test]
fn elevation_is_exact_where_the_distances_are_multiples_of_three() {
    let (p0, p1, p2) = (p(0, 30), p(300, -60), p(-600, 90));
    let q = quadratic_to_cubic(p0, p1, p2);
    assert_eq!(
        cubic_middle_8(q.0.x as i128, q.1.x as i128, q.2.x as i128, q.3.x as i128),
        quadratic_middle_8(p0.x as i128, p1.x as i128, p2.x as i128)
    );
    assert_eq!(
        cubic_middle_8(q.0.y as i128, q.1.y as i128, q.2.y as i128, q.3.y as i128),
        quadratic_middle_8(p0.y as i128, p1.y as i128, p2.y as i128)
    );
}

#[test]
fn elevation_stays_in_range_at_the_ends_of_the_range() {
    let q = quadratic_to_cubic(p(i64::MIN, i64::MAX), p(i64::MAX, i64::MIN), p(i64::MIN, i64::MAX));
    // The distance is 2^64 - 1; two thirds of it, rounded toward zero.
    let d: i128 = i64::MAX as i128 - i64::MIN as i128;
    let step = (2 * d / 3) as i128;
    assert_eq!(q.1.x as i128, i64::MIN as i128 + step);
    assert_eq!(q.1.y as i128, i64::MAX as i128 - step);
    assert_eq!(q.2, q.1);
}

#[test]
fn a_new_builder_stands_at_its_start_and_has_written_nothing() {
    let b = PDFPathBuilder::new(20_000, 30_000);
    assert_eq!(b.current_point(), p(20_000, 30_000));
    assert!(b.path().is_empty());
}

#[test]
fn lines_and_cubics_pass_unchanged() {
    let mut b = PDFPathBuilder::new(0, 0);
    let path = Path {
        segments: vec![
            PathSegment::MoveTo(1000, 1000),
            PathSegment::LineTo(2000, 1000),
            PathSegment::CubicTo(3000, 1000, 3000, 2000, 2000, 2000),
            PathSegment::Close,
        ],
    };
    b.set(&path);
    assert_eq!(b.path().segments, path.segments);
    assert_eq!(b.current_point(), p(2000, 2000));
}

#[test]
fn a_quadratic_is_raised_from_the_point_where_the_pen_stands() {
    let mut b = PDFPathBuilder::new(0, 0);
    b.set(&Path {
        segments: vec![
            PathSegment::MoveTo(0, 0),
            PathSegment::QuadTo(3000, 3000, 6000, 0),
            PathSegment::QuadTo(9000, -3000, 12_000, 0),
        ],
    });
    assert_eq!(
        b.path().segments,
        vec![
            PathSegment::MoveTo(0, 0),
            PathSegment::CubicTo(2000, 2000, 4000, 2000, 6000, 0),
            PathSegment::CubicTo(8000, -2000, 10_000, -2000, 12_000, 0),
        ]
    );
    assert_eq!(b.current_point(), p(12_000, 0));
}

#[test]
fn the_first_quadratic_starts_at_the_point_the_builder_was_made_with() {
    let mut b = PDFPathBuilder::new(3000, 3000);
    b.quad_to(3000, 6000, 6000, 6000);
    assert_eq!(b.path().segments, vec![PathSegment::CubicTo(3000, 5000, 4000, 6000, 6000, 6000)]);
}

#[test]
fn closing_leaves_the_pen_where_it_stood() {
    let mut b = PDFPathBuilder::new(0, 0);
    b.move_to(1000, 1000);
    b.line_to(5000, 1000);
    b.close();
    assert_eq!(b.current_point(), p(5000, 1000));
    b.quad_to(5000, 4000, 8000, 4000);
    assert_eq!(
        b.path().segments,
        vec![
            PathSegment::MoveTo(1000, 1000),
            PathSegment::LineTo(5000, 1000),
            PathSegment::Close,
            PathSegment::CubicTo(5000, 3000, 6000, 4000, 8000, 4000),
        ]
    );
}

#[test]
fn no_quadratic_is_left_after_normalizing() {
    let mut b = PDFPathBuilder::new(0, 0);
    let path = Path {
        segments: vec![
            PathSegment::MoveTo(7, 7),
            PathSegment::QuadTo(1, 2, 3, 4),
            PathSegment::LineTo(9, 9),
            PathSegment::QuadTo(5, 6, 7, 8),
            PathSegment::Close,
        ],
    };
    b.set(&path);
    assert_eq!(b.path().len(), path.len());
    assert!(b.path().segments.iter().all(|s| !matches!(s, PathSegment::QuadTo(..))));
}

#[test]
fn set_twice_continues_from_the_last_point() {
    let mut b = PDFPathBuilder::new(0, 0);
    b.set(&Path { segments: vec![PathSegment::MoveTo(3000, 0)] });
    b.set(&Path { segments: vec![PathSegment::QuadTo(3000, 3000, 0, 3000)] });
    assert_eq!(
        b.path().segments,
        vec![PathSegment::MoveTo(3000, 0), PathSegment::CubicTo(3000, 2000, 2000, 3000, 0, 3000)]
    );
}

#[test]
fn accept_takes_each_kind_of_segment() {
    let mut b = PDFPathBuilder::new(0, 0);
    b.accept(PathSegment::MoveTo(1, 1));
    b.accept(PathSegment::LineTo(2, 2));
    b.accept(PathSegment::CubicTo(3, 3, 4, 4, 5, 5));
    b.accept(PathSegment::Close);
    assert_eq!(
        b.path().segments,
        vec![
            PathSegment::MoveTo(1, 1),
            PathSegment::LineTo(2, 2),
            PathSegment::CubicTo(3, 3, 4, 4, 5, 5),
            PathSegment::Close,
        ]
    );
}
