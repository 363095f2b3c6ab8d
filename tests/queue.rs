use bevy_mod_gizmos::{Color, Gizmo, SubmissionQueue, Vec3i};

fn p(x: i32, y: i32, z: i32) -> Vec3i {
    Vec3i::new(x, y, z)
}

#[test]
fn closed_line_repeats_first_point() {
    let mut q = SubmissionQueue::new();
    let c = Color::rgb(0, 255, 0);
    q.submit_closed_line(vec![p(0, 0, 0), p(1000, 0, 0), p(0, 1000, 0)], c);
    let (markers, lines) = q.drain();
    assert!(markers.is_empty());
    assert_eq!(lines.len(), 1);
    assert_eq!(lines[0].points, vec![p(0, 0, 0), p(1000, 0, 0), p(0, 1000, 0), p(0, 0, 0)]);
    assert_eq!(lines[0].color, c);
}

#[test]
fn closed_line_of_nothing_adds_nothing() {
    let mut q = SubmissionQueue::new();
    q.submit_closed_line(vec![], Color::red());
    assert_eq!(q.line_count(), 0);
}

#[test]
fn closed_line_of_one_point_is_a_loop_on_it() {
    let mut q = SubmissionQueue::new();
    q.submit_closed_line(vec![p(5, 6, 7)], Color::red());
    let (_, lines) = q.drain();
    assert_eq!(lines.len(), 1);
    assert_eq!(lines[0].points, vec![p(5, 6, 7), p(5, 6, 7)]);
}

#[test]
fn open_line_needs_two_points() {
    let mut q = SubmissionQueue::new();
    q.submit_line(vec![], Color::red());
    q.submit_line(vec![p(1, 1, 1)], Color::red());
    assert_eq!(q.line_count(), 0);
    q.submit_line(vec![p(1, 1, 1), p(2, 2, 2)], Color::white());
    let (_, lines) = q.drain();
    assert_eq!(lines.len(), 1);
    assert_eq!(lines[0].points, vec![p(1, 1, 1), p(2, 2, 2)]);
    assert_eq!(lines[0].color, Color::white());
}

#[test]
fn markers_with_connecting_line_use_first_color() {
    let mut q = SubmissionQueue::new();
    let a = Gizmo::new(p(2000, 2000, 0), 500, Color::rgb(1, 2, 3));
    let b = Gizmo::new(p(-2000, 2000, 0), 250, Color::rgb(4, 5, 6));
    let c = Gizmo::new(p(-2000, -2000, 0), 750, Color::rgb(7, 8, 9));
    q.submit_markers(vec![a, b, c], true);
    let (markers, lines) = q.drain();
    assert_eq!(markers, vec![a, b, c]);
    assert_eq!(lines.len(), 1);
    assert_eq!(lines[0].points, vec![p(2000, 2000, 0), p(-2000, 2000, 0), p(-2000, -2000, 0)]);
    assert_eq!(lines[0].color, Color::rgb(1, 2, 3));
}

#[test]
fn markers_without_line_or_too_few_for_one() {
    let mut q = SubmissionQueue::new();
    q.submit_markers(vec![Gizmo::at(p(0, 0, 0)), Gizmo::at(p(1, 0, 0))], false);
    q.submit_markers(vec![Gizmo::at(p(2, 0, 0))], true);
    q.submit_markers(vec![], true);
    assert_eq!(q.marker_count(), 3);
    assert_eq!(q.line_count(), 0);
}

#[test]
fn drain_takes_everything_once() {
    let mut q = SubmissionQueue::new();
    q.submit_marker(Gizmo::at(p(0, 0, 0)));
    q.submit_line(vec![p(0, 0, 0), p(1, 1, 1)], Color::red());
    let (m, l) = q.drain();
    assert_eq!((m.len(), l.len()), (1, 1));
    assert_eq!((q.marker_count(), q.line_count()), (0, 0));
    let (m, l) = q.drain();
    assert_eq!((m.len(), l.len()), (0, 0));
}

#[test]
fn default_marker_is_unit_red_sphere() {
    let g = Gizmo::at(p(1, 2, 3));
    assert_eq!(g, Gizmo::new(p(1, 2, 3), 1000, Color::rgba(255, 0, 0, 255)));
    assert_eq!(g.scale.x, 1000);
    assert!(!g.interactions.has_any());
}
