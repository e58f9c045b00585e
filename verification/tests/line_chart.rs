use line_chart::animation::{frame_end, settle, settle_channels, FrameEnd, Visibility};
use line_chart::curve::{plan_curve, CurveSegment};
use line_chart::interaction::{
    entity_group_index, route_cell_change, tooltip_value_formatter, CellChangeRoute,
};
use line_chart::labels::{
    allowed_label_angles, choose_rotation, rotation_candidates, tick_origin, xlabel_hop_divisor,
    xlabel_indices, xlabel_style, HorizontalAlign, LabelRotation, TextBaseline, TickOrigin,
};

#[test]
fn curve_without_control_points_is_a_line() {
    assert_eq!(plan_curve::<(i32, i32)>(None, None, (3, 4)), CurveSegment::LineTo((3, 4)));
}

#[test]
fn curve_with_first_control_point_is_quadratic() {
    assert_eq!(
        plan_curve(Some((1, 1)), None, (3, 4)),
        CurveSegment::QuadraticTo((1, 1), (3, 4))
    );
}

#[test]
fn curve_with_second_control_point_is_quadratic() {
    assert_eq!(
        plan_curve(None, Some((2, 7)), (3, 4)),
        CurveSegment::QuadraticTo((2, 7), (3, 4))
    );
}

#[test]
fn curve_with_both_control_points_is_bezier() {
    assert_eq!(
        plan_curve(Some((1, 1)), Some((2, 7)), (3, 4)),
        CurveSegment::BezierTo((1, 1), (2, 7), (3, 4))
    );
}

#[test]
fn settle_finishes_fades() {
    assert_eq!(settle(Visibility::Showing), Visibility::Shown);
    assert_eq!(settle(Visibility::Hiding), Visibility::Hidden);
    assert_eq!(settle(Visibility::Shown), Visibility::Shown);
    assert_eq!(settle(Visibility::Hidden), Visibility::Hidden);
}

#[test]
fn settle_channels_leaves_no_fade_and_is_idempotent() {
    let mut states = vec![
        Visibility::Showing,
        Visibility::Hidden,
        Visibility::Hiding,
        Visibility::Shown,
    ];
    settle_channels(&mut states);
    let expected = vec![
        Visibility::Shown,
        Visibility::Hidden,
        Visibility::Hidden,
        Visibility::Shown,
    ];
    assert_eq!(states, expected);
    settle_channels(&mut states);
    assert_eq!(states, expected);
}

#[test]
fn settle_channels_on_no_channels() {
    let mut states: Vec<Visibility> = Vec::new();
    settle_channels(&mut states);
    assert!(states.is_empty());
}

#[test]
fn frame_end_decisions() {
    assert_eq!(frame_end(false, true), FrameEnd::Continue);
    assert_eq!(frame_end(false, false), FrameEnd::Continue);
    assert_eq!(frame_end(true, true), FrameEnd::EndAnimation);
    assert_eq!(frame_end(true, false), FrameEnd::Done);
}

#[test]
fn group_index_inside_and_present() {
    assert_eq!(entity_group_index(true, 2, 5), 2);
    assert_eq!(entity_group_index(true, 0, 1), 0);
}

#[test]
fn group_index_missing_group() {
    assert_eq!(entity_group_index(true, 5, 5), -1);
    assert_eq!(entity_group_index(true, 0, 0), -1);
}

#[test]
fn group_index_outside_axes() {
    assert_eq!(entity_group_index(false, 2, 5), -1);
}

#[test]
fn cell_change_routes() {
    assert_eq!(route_cell_change(0), CellChangeRoute::XAxisLabel);
    assert_eq!(route_cell_change(1), CellChangeRoute::Channel);
    assert_eq!(route_cell_change(7), CellChangeRoute::Channel);
}

#[test]
fn hop_divisor_values() {
    assert_eq!(xlabel_hop_divisor(true, 5), 5);
    assert_eq!(xlabel_hop_divisor(false, 5), 4);
    assert_eq!(xlabel_hop_divisor(true, 1), 1);
    assert_eq!(xlabel_hop_divisor(false, 1), 1);
    assert_eq!(xlabel_hop_divisor(false, 0), 1);
    assert_eq!(xlabel_hop_divisor(true, 2), 2);
    assert_eq!(xlabel_hop_divisor(false, 2), 1);
}

#[test]
fn allowed_angles_full_range() {
    assert_eq!(allowed_label_angles(-90, 90), vec![0, -45, 45, -90, 90]);
}

#[test]
fn allowed_angles_limited_range() {
    assert_eq!(allowed_label_angles(0, 90), vec![0, 45, 90]);
    assert_eq!(allowed_label_angles(-45, 0), vec![0, -45]);
    assert_eq!(allowed_label_angles(10, 40), Vec::<i64>::new());
    assert_eq!(allowed_label_angles(5, -5), Vec::<i64>::new());
}

#[test]
fn candidates_in_loop_order() {
    assert_eq!(
        rotation_candidates(3, 0, 45),
        vec![(1, 0), (1, 45), (2, 0), (2, 45)]
    );
}

#[test]
fn candidates_for_few_rows() {
    assert!(rotation_candidates(0, -90, 90).is_empty());
    assert!(rotation_candidates(1, -90, 90).is_empty());
    assert_eq!(rotation_candidates(2, -90, 90).len(), 5);
}

#[test]
fn choose_rotation_takes_first_fit() {
    let cands = rotation_candidates(3, 0, 45);
    let fits = vec![true, false, true, false];
    assert_eq!(
        choose_rotation(&cands, &fits),
        LabelRotation { angle: 0, step: Some(1) }
    );
    let fits = vec![false, true, false, true];
    assert_eq!(
        choose_rotation(&cands, &fits),
        LabelRotation { angle: 45, step: Some(1) }
    );
    let fits = vec![false, false, false, true];
    assert_eq!(
        choose_rotation(&cands, &fits),
        LabelRotation { angle: 45, step: Some(2) }
    );
}

#[test]
fn choose_rotation_two_fits_at_first_stride() {
    let cands = rotation_candidates(2, 0, 45);
    assert_eq!(cands, vec![(1, 0), (1, 45)]);
    let fits = vec![true, true];
    assert_eq!(
        choose_rotation(&cands, &fits),
        LabelRotation { angle: 0, step: Some(1) }
    );
}

#[test]
fn choose_rotation_without_fit_is_level() {
    let cands = rotation_candidates(3, 10, 45);
    let fits = vec![false, false];
    assert_eq!(
        choose_rotation(&cands, &fits),
        LabelRotation { angle: 0, step: None }
    );
}

#[test]
fn chosen_rotation_within_limits_example() {
    let cands = rotation_candidates(4, -45, 45);
    let fits: Vec<bool> = (0..cands.len()).map(|i| i % 2 == 1).collect();
    let r = choose_rotation(&cands, &fits);
    assert!(r.angle >= -45 && r.angle <= 45);
    let s = r.step.unwrap();
    assert!(s >= 1 && s < 4);
}

#[test]
fn label_indices_every_step() {
    assert_eq!(xlabel_indices(10, 3), vec![0, 3, 6, 9]);
    assert_eq!(xlabel_indices(9, 3), vec![0, 3, 6]);
    assert_eq!(xlabel_indices(5, 1), vec![0, 1, 2, 3, 4]);
    assert_eq!(xlabel_indices(3, 7), vec![0]);
    assert_eq!(xlabel_indices(0, 0), Vec::<usize>::new());
    assert_eq!(xlabel_indices(0, 4), Vec::<usize>::new());
}

#[test]
fn label_indices_huge_step() {
    assert_eq!(xlabel_indices(5, usize::MAX), vec![0]);
}

#[test]
fn label_style_level() {
    let s = xlabel_style(0);
    assert_eq!(s.align, HorizontalAlign::Center);
    assert_eq!(s.baseline, TextBaseline::Alphabetic);
    assert!(!s.rotated);
    assert!(!s.nudged);
}

#[test]
fn label_style_turned() {
    let s = xlabel_style(-45);
    assert_eq!(s.align, HorizontalAlign::Right);
    assert_eq!(s.baseline, TextBaseline::Middle);
    assert!(s.rotated);
    assert!(!s.nudged);
    let s = xlabel_style(45);
    assert_eq!(s.align, HorizontalAlign::Left);
    assert!(!s.nudged);
    let s = xlabel_style(90);
    assert_eq!(s.align, HorizontalAlign::Left);
    assert!(s.nudged);
    let s = xlabel_style(-90);
    assert_eq!(s.align, HorizontalAlign::Right);
    assert!(!s.nudged);
}

#[test]
fn tick_origin_values() {
    assert_eq!(tick_origin(0), TickOrigin::AxisStart);
    assert_eq!(tick_origin(1), TickOrigin::AxisStart);
    assert_eq!(tick_origin(2), TickOrigin::FirstLabel);
}

#[test]
fn tooltip_formatter_prefers_its_own() {
    assert_eq!(tooltip_value_formatter(Some(1), Some(2)), Some(1));
    assert_eq!(tooltip_value_formatter(None, Some(2)), Some(2));
    assert_eq!(tooltip_value_formatter(Some(1), None), Some(1));
    assert_eq!(tooltip_value_formatter::<i32>(None, None), None);
}
