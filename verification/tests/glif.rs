use gerb::glyphs::glif::{contour_from_points, glyph_contour_from_points, CurveShape, Point, PointKind};

fn pt(x: i64, y: i64, type_: PointKind) -> Point {
    Point { x, y, type_, smooth: None }
}

fn smooth(x: i64, y: i64, type_: PointKind) -> Point {
    Point { x, y, type_, smooth: Some("yes".to_string()) }
}

fn curve(smooth: bool, points: &[(i64, i64)]) -> CurveShape {
    CurveShape { smooth, points: points.to_vec() }
}

#[test]
fn closed_square_of_lines() {
    let c = contour_from_points(&vec![
        pt(0, 0, PointKind::Line),
        pt(100, 0, PointKind::Line),
        pt(100, 100, PointKind::Line),
        pt(0, 100, PointKind::Line),
    ]);
    assert!(!c.open);
    assert_eq!(
        c.curves,
        vec![
            curve(false, &[(0, 100), (0, 0)]),
            curve(false, &[(0, 0), (100, 0)]),
            curve(false, &[(100, 0), (100, 100)]),
            curve(false, &[(100, 100), (0, 100)]),
        ]
    );
}

#[test]
fn open_contour_with_a_cubic() {
    let c = contour_from_points(&vec![
        pt(0, 0, PointKind::Move),
        pt(10, 0, PointKind::Line),
        pt(15, 5, PointKind::Offcurve),
        pt(20, 5, PointKind::Offcurve),
        pt(25, 0, PointKind::Curve),
    ]);
    assert!(c.open);
    assert_eq!(
        c.curves,
        vec![
            curve(false, &[(0, 0), (10, 0)]),
            curve(false, &[(10, 0), (15, 5), (20, 5), (25, 0)]),
        ]
    );
}

#[test]
fn smooth_curve_points_make_smooth_curves() {
    let c = contour_from_points(&vec![
        pt(0, 0, PointKind::Line),
        pt(10, 10, PointKind::Offcurve),
        pt(20, 10, PointKind::Offcurve),
        smooth(30, 0, PointKind::Curve),
    ]);
    assert!(!c.open);
    assert_eq!(
        c.curves,
        vec![
            curve(false, &[(30, 0), (0, 0)]),
            curve(true, &[(0, 0), (10, 10), (20, 10), (30, 0)]),
        ]
    );
    assert!(smooth(0, 0, PointKind::Curve).is_smooth());
    assert!(!pt(0, 0, PointKind::Curve).is_smooth());
}

#[test]
fn trailing_control_points_close_the_contour() {
    let c = contour_from_points(&vec![
        pt(0, 0, PointKind::Line),
        pt(10, 0, PointKind::Line),
        pt(10, 10, PointKind::Offcurve),
    ]);
    assert_eq!(c.curves.len(), 3);
    assert_eq!(c.curves[2], curve(false, &[(10, 10)]));
}

#[test]
fn a_glyph_contour_starts_at_its_first_point() {
    let points = vec![
        pt(0, 0, PointKind::Curve),
        pt(10, 10, PointKind::Offcurve),
        pt(20, 10, PointKind::Offcurve),
        pt(30, 0, PointKind::Curve),
    ];
    let c = glyph_contour_from_points(&points);
    assert!(!c.open);
    assert_eq!(
        c.curves,
        vec![curve(false, &[(0, 0), (10, 10), (20, 10), (30, 0)]), curve(false, &[(30, 0), (0, 0)])]
    );
    let read = contour_from_points(&points);
    assert_eq!(
        read.curves,
        vec![curve(false, &[(10, 10), (10, 10), (20, 10), (30, 0)]), curve(false, &[(30, 0), (0, 0)])]
    );
}

#[test]
fn a_glyph_contour_of_lines_reads_as_the_iterator_reads_it() {
    let points = vec![
        pt(0, 0, PointKind::Line),
        pt(100, 0, PointKind::Line),
        pt(100, 100, PointKind::Line),
    ];
    assert_eq!(glyph_contour_from_points(&points), contour_from_points(&points));
}
