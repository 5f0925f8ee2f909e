use gerb::glyphs::contours::{Bezier, Continuity, Contour, CurvePoint};
use gerb::glyphs::transform::{PointEdit, PointRef};
use gerb::glyphs::GlyphPointIndex;

fn cp(uuid: u128) -> CurvePoint {
    CurvePoint { uuid, continuity: None, degree: None }
}

fn join(uuid: u128, k: Continuity) -> CurvePoint {
    CurvePoint { uuid, continuity: Some(k), degree: None }
}

fn bezier(smooth: bool, points: Vec<CurvePoint>) -> Bezier {
    Bezier { smooth, continuity_in: None, continuity_out: None, points }
}

fn ids(c: &Contour) -> Vec<Vec<u128>> {
    c.curves().iter().map(|b| b.points.iter().map(|p| p.uuid).collect()).collect()
}

fn gpi(curve_index: usize, uuid: u128) -> GlyphPointIndex {
    GlyphPointIndex { contour_index: 0, curve_index, uuid }
}

#[test]
fn push_sets_the_continuity_of_the_new_join() {
    let mut c = Contour::new();
    c.push_curve(bezier(false, vec![cp(1), cp(2), cp(3), cp(4)]), Continuity::Velocity);
    assert_eq!(c.curves().len(), 1);
    assert_eq!(c.curves()[0].continuity_in, None);
    c.push_curve(bezier(true, vec![cp(4), cp(5), cp(6), cp(7)]), Continuity::Velocity);
    assert_eq!(c.curves()[0].continuity_out, Some(Continuity::Velocity));
    assert_eq!(c.curves()[1].continuity_in, Some(Continuity::Velocity));
    c.push_curve(bezier(false, vec![cp(7), cp(8)]), Continuity::Velocity);
    assert_eq!(c.curves()[1].continuity_out, Some(Continuity::Positional));
    assert_eq!(c.curves()[2].continuity_in, Some(Continuity::Positional));
    c.push_curve(bezier(false, vec![]), Continuity::Velocity);
    assert_eq!(c.curves().len(), 3);
    let last = c.pop_curve().unwrap();
    assert_eq!(last.points.len(), 2);
    assert_eq!(c.curves().len(), 2);
}

#[test]
fn pop_of_an_empty_contour() {
    let mut c = Contour::new();
    assert!(c.pop_curve().is_none());
    assert!(c.is_open());
}

#[test]
fn close_joins_the_last_curve_to_the_first() {
    let mut c = Contour::new();
    c.push_curve(bezier(true, vec![cp(1), cp(2), cp(3)]), Continuity::Positional);
    c.push_curve(bezier(false, vec![cp(3), cp(4), cp(1)]), Continuity::Positional);
    c.close(Continuity::Tangent { beta_bits: 2.0f64.to_bits() });
    assert!(!c.is_open());
    assert_eq!(c.curves()[0].continuity_in, Some(Continuity::Tangent { beta_bits: 2.0f64.to_bits() }));
    assert_eq!(c.curves()[1].continuity_out, Some(Continuity::Tangent { beta_bits: 2.0f64.to_bits() }));
    c.close(Continuity::Velocity);
    assert_eq!(c.curves()[0].continuity_in, Some(Continuity::Tangent { beta_bits: 2.0f64.to_bits() }));
}

#[test]
fn reverse_direction_twice_restores_the_contour() {
    let mut c = Contour::new();
    c.push_curve(bezier(false, vec![cp(1), cp(2), cp(3)]), Continuity::Positional);
    c.push_curve(bezier(false, vec![cp(3), cp(4)]), Continuity::Positional);
    c.reverse_direction();
    assert_eq!(ids(&c), vec![vec![4, 3], vec![3, 2, 1]]);
    c.reverse_direction();
    assert_eq!(ids(&c), vec![vec![1, 2, 3], vec![3, 4]]);
}

#[test]
fn recalc_sets_every_join_cyclically() {
    let mut c = Contour::new();
    c.push_curve(bezier(true, vec![cp(1), cp(2)]), Continuity::Positional);
    c.push_curve(bezier(false, vec![cp(2), cp(3)]), Continuity::Positional);
    c.push_curve(bezier(true, vec![cp(3), cp(1)]), Continuity::Positional);
    c.recalc_continuities(&vec![Continuity::Velocity, Continuity::Velocity, Continuity::Velocity]);
    let cs = c.curves();
    assert_eq!(cs[0].continuity_out, Some(Continuity::Positional));
    assert_eq!(cs[1].continuity_in, Some(Continuity::Positional));
    assert_eq!(cs[1].continuity_out, Some(Continuity::Velocity));
    assert_eq!(cs[2].continuity_in, Some(Continuity::Velocity));
    assert_eq!(cs[2].continuity_out, Some(Continuity::Velocity));
    assert_eq!(cs[0].continuity_in, Some(Continuity::Velocity));
    for i in 0..3 {
        assert_eq!(cs[i].continuity_out, cs[(i + 1) % 3].continuity_in);
    }
}

fn closed_two_cubics() -> Contour {
    let mut c = Contour::new();
    c.push_curve(
        bezier(true, vec![join(1, Continuity::Velocity), cp(2), cp(3), join(4, Continuity::Velocity)]),
        Continuity::Velocity,
    );
    c.push_curve(
        bezier(true, vec![join(4, Continuity::Velocity), cp(5), cp(6), join(7, Continuity::Velocity)]),
        Continuity::Velocity,
    );
    c.close(Continuity::Velocity);
    c
}

#[test]
fn control_points_around_a_join() {
    let c = closed_two_cubics();
    let (before, after) = c.get_control_point(gpi(1, 4));
    assert_eq!(before, Some(gpi(0, 3)));
    assert_eq!(after, Some(gpi(1, 5)));
    let (before, after) = c.get_control_point(gpi(0, 4));
    assert_eq!(before, Some(gpi(0, 3)));
    assert_eq!(after, Some(gpi(1, 5)));
    let (before, after) = c.get_control_point(gpi(1, 7));
    assert_eq!(before, Some(gpi(1, 6)));
    assert_eq!(after, Some(gpi(0, 2)));
    let (before, after) = c.get_control_point(gpi(0, 1));
    assert_eq!(before, Some(gpi(1, 6)));
    assert_eq!(after, Some(gpi(0, 2)));
    assert_eq!(c.get_control_point(gpi(0, 2)), (None, None));
    assert_eq!(c.get_control_point(gpi(5, 2)), (None, None));
}

#[test]
fn change_continuity_updates_both_sides() {
    let mut c = Contour::new();
    let mut first = bezier(true, vec![cp(1), cp(2), cp(3), cp(4)]);
    first.points[3].degree = Some(3);
    c.push_curve(first, Continuity::Velocity);
    c.push_curve(bezier(true, vec![cp(4), cp(5), cp(6), cp(7)]), Continuity::Velocity);
    c.close(Continuity::Velocity);
    let prev = c.change_continuity(gpi(1, 4), Continuity::Positional);
    assert_eq!(prev, Some(Continuity::Velocity));
    assert_eq!(c.curves()[1].continuity_in, Some(Continuity::Positional));
    assert_eq!(c.curves()[0].continuity_out, Some(Continuity::Positional));
    assert_eq!(c.change_continuity(gpi(1, 4), Continuity::Positional), Some(Continuity::Positional));
    assert_eq!(c.change_continuity(gpi(1, 99), Continuity::Velocity), None);
    assert_eq!(c.get_point(gpi(0, 4)).unwrap().degree, Some(3));
    assert!(c.get_point(gpi(0, 5)).is_none());
}

fn pref(curve_index: usize, uuid: u128, point: usize) -> PointRef {
    PointRef { index: gpi(curve_index, uuid), point }
}

#[test]
fn moving_an_on_curve_point_drags_its_handles() {
    let c = closed_two_cubics();
    let plan = c.transform_points(0, &vec![gpi(1, 4)]);
    assert_eq!(
        plan,
        vec![
            PointEdit::Transform { target: pref(1, 4, 0) },
            PointEdit::Transform { target: pref(1, 5, 1) },
            PointEdit::Transform { target: pref(0, 4, 3) },
            PointEdit::Transform { target: pref(0, 3, 2) },
        ]
    );
    assert!(c.transform_points(1, &vec![gpi(1, 4)]).is_empty());
}

#[test]
fn moving_a_handle_mirrors_the_one_across_a_velocity_join() {
    let c = closed_two_cubics();
    let plan = c.transform_points(0, &vec![gpi(1, 5)]);
    assert_eq!(
        plan,
        vec![
            PointEdit::Transform { target: pref(1, 5, 1) },
            PointEdit::Mirror { target: pref(0, 3, 2), of: pref(1, 5, 1), around: pref(1, 4, 0) },
        ]
    );
    let plan = c.transform_points(0, &vec![gpi(0, 3)]);
    assert_eq!(
        plan,
        vec![
            PointEdit::Transform { target: pref(0, 3, 2) },
            PointEdit::Mirror { target: pref(1, 5, 1), of: pref(0, 3, 2), around: pref(0, 4, 3) },
        ]
    );
}

#[test]
fn control_points_at_the_end_of_an_open_contour() {
    let mut c = Contour::new();
    c.push_curve(
        bezier(true, vec![join(1, Continuity::Velocity), cp(2), cp(3), join(4, Continuity::Velocity)]),
        Continuity::Velocity,
    );
    c.push_curve(
        bezier(true, vec![join(4, Continuity::Velocity), cp(5), cp(6), join(7, Continuity::Velocity)]),
        Continuity::Velocity,
    );
    assert!(c.is_open());
    assert_eq!(c.get_control_point(gpi(1, 7)), (Some(gpi(1, 6)), None));
    assert_eq!(c.get_control_point(gpi(0, 1)), (None, None));
}

fn open_three_cubics() -> Contour {
    let mut c = Contour::new();
    for k in 0..3u128 {
        let s = 3 * k + 1;
        c.push_curve(
            bezier(
                true,
                vec![join(s, Continuity::Velocity), cp(s + 1), cp(s + 2), join(s + 3, Continuity::Velocity)],
            ),
            Continuity::Velocity,
        );
    }
    c
}

#[test]
fn both_ends_of_a_join_move_together() {
    let c = open_three_cubics();
    assert_eq!(
        c.transform_points(0, &vec![gpi(0, 4)]),
        vec![
            PointEdit::Transform { target: pref(0, 4, 3) },
            PointEdit::Transform { target: pref(0, 3, 2) },
            PointEdit::Transform { target: pref(1, 4, 0) },
            PointEdit::Transform { target: pref(1, 5, 1) },
        ]
    );
    assert_eq!(
        c.transform_points(0, &vec![gpi(1, 4)]),
        vec![
            PointEdit::Transform { target: pref(1, 4, 0) },
            PointEdit::Transform { target: pref(1, 5, 1) },
            PointEdit::Transform { target: pref(0, 4, 3) },
            PointEdit::Transform { target: pref(0, 3, 2) },
        ]
    );
    assert_eq!(
        c.transform_points(0, &vec![gpi(2, 7)]),
        vec![
            PointEdit::Transform { target: pref(2, 7, 0) },
            PointEdit::Transform { target: pref(2, 8, 1) },
        ]
    );
}
