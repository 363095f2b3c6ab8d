use bevy_mod_gizmos::{
    Callback, Dir3, Gizmo, HandlerId, Overlay, PointerButton, Ray, SubmissionQueue, Vec3i,
    FIXED_ONE, REGISTRATION_MAX_AGE,
};

fn origin() -> Vec3i {
    Vec3i::new(0, 0, 0)
}

fn ray_through_origin() -> Ray {
    Ray { origin: Vec3i::new(0, 0, 8000), direction: Dir3 { x: 0, y: 0, z: -1000 } }
}

fn ray_missing_origin() -> Ray {
    Ray { origin: Vec3i::new(5000, 0, 8000), direction: Dir3 { x: 0, y: 0, z: -1000 } }
}

fn one_tick(
    overlay: &mut Overlay,
    q: &mut SubmissionQueue,
    ray: Option<Ray>,
    just_pressed: bool,
) -> Vec<Callback> {
    overlay.cleanup();
    overlay.spawn(q);
    overlay.interact(ray, just_pressed)
}

#[test]
fn click_fires_once_then_not_without_new_press() {
    let mut overlay = Overlay::new();
    let mut q = SubmissionQueue::new();
    let marker = Gizmo::new(origin(), FIXED_ONE as u32, bevy_mod_gizmos::Color::white())
        .on_click(HandlerId(42));
    q.submit_marker(marker);
    let fired = one_tick(&mut overlay, &mut q, Some(ray_through_origin()), true);
    assert_eq!(fired, vec![Callback::Click(HandlerId(42))]);
    // Same ray, no new press edge, marker not resubmitted.
    let fired = one_tick(&mut overlay, &mut q, Some(ray_through_origin()), false);
    assert!(fired.is_empty());
    // Same ray, no new press edge, marker resubmitted.
    q.submit_marker(marker);
    let fired = one_tick(&mut overlay, &mut q, Some(ray_through_origin()), false);
    assert!(fired.is_empty());
}

#[test]
fn held_button_over_five_hit_ticks_clicks_once() {
    let mut overlay = Overlay::new();
    let mut q = SubmissionQueue::new();
    let mut button = PointerButton::new();
    let marker = Gizmo::at(origin()).on_click(HandlerId(1)).on_hover(HandlerId(2));
    let mut clicks = 0;
    let mut hovers = 0;
    for tick in 0..5 {
        q.submit_marker(marker);
        let pressed = button.update(true);
        assert_eq!(pressed, tick == 0);
        for cb in one_tick(&mut overlay, &mut q, Some(ray_through_origin()), pressed) {
            match cb {
                Callback::Click(h) => {
                    assert_eq!(h, HandlerId(1));
                    clicks += 1;
                }
                Callback::Hover(h) => {
                    assert_eq!(h, HandlerId(2));
                    hovers += 1;
                }
                _ => panic!("unexpected callback"),
            }
        }
    }
    assert_eq!(clicks, 1);
    assert_eq!(hovers, 5);
    // Release, then press again: one more edge.
    assert!(!button.update(false));
    assert!(button.update(true));
}

#[test]
fn click_needs_a_hit() {
    let mut overlay = Overlay::new();
    let mut q = SubmissionQueue::new();
    q.submit_marker(Gizmo::at(origin()).on_click(HandlerId(1)).on_hover(HandlerId(2)));
    let fired = one_tick(&mut overlay, &mut q, Some(ray_missing_origin()), true);
    assert!(fired.is_empty());
}

#[test]
fn hover_without_press_fires_hover_only() {
    let mut overlay = Overlay::new();
    let mut q = SubmissionQueue::new();
    q.submit_marker(
        Gizmo::at(origin())
            .on_hover(HandlerId(1))
            .on_click(HandlerId(2))
            .on_hover_system(HandlerId(3))
            .on_click_system(HandlerId(4)),
    );
    let fired = one_tick(&mut overlay, &mut q, Some(ray_through_origin()), false);
    assert_eq!(fired, vec![Callback::Hover(HandlerId(1)), Callback::HoverSystem(HandlerId(3))]);
    assert!(!fired[0].is_exclusive());
    assert!(fired[1].is_exclusive());
}

#[test]
fn press_on_hit_fires_all_four_in_order() {
    let mut overlay = Overlay::new();
    let mut q = SubmissionQueue::new();
    q.submit_marker(
        Gizmo::at(origin())
            .on_hover(HandlerId(1))
            .on_click(HandlerId(2))
            .on_hover_system(HandlerId(3))
            .on_click_system(HandlerId(4)),
    );
    let fired = one_tick(&mut overlay, &mut q, Some(ray_through_origin()), true);
    assert_eq!(
        fired,
        vec![
            Callback::Hover(HandlerId(1)),
            Callback::Click(HandlerId(2)),
            Callback::HoverSystem(HandlerId(3)),
            Callback::ClickSystem(HandlerId(4)),
        ]
    );
    assert_eq!(fired[3].handler(), HandlerId(4));
}

#[test]
fn no_ray_skips_the_pass() {
    let mut overlay = Overlay::new();
    let mut q = SubmissionQueue::new();
    q.submit_marker(Gizmo::at(origin()).on_click(HandlerId(1)));
    let fired = one_tick(&mut overlay, &mut q, None, true);
    assert!(fired.is_empty());
    assert_eq!(overlay.registration_count(), 1);
}

#[test]
fn orphaned_registrations_are_purged_after_grace() {
    let mut overlay = Overlay::new();
    let mut q = SubmissionQueue::new();
    q.submit_marker(Gizmo::at(origin()).on_hover(HandlerId(1)));
    q.submit_marker(Gizmo::at(origin()));
    one_tick(&mut overlay, &mut q, Some(ray_through_origin()), false);
    assert_eq!(overlay.registration_count(), 1);
    // The marker is not resubmitted: its registration is orphaned from now on.
    for _ in 0..REGISTRATION_MAX_AGE {
        let fired = one_tick(&mut overlay, &mut q, Some(ray_through_origin()), false);
        assert!(fired.is_empty());
        assert_eq!(overlay.registration_count(), 1);
    }
    one_tick(&mut overlay, &mut q, Some(ray_through_origin()), false);
    assert_eq!(overlay.registration_count(), 0);
}

#[test]
fn every_hit_marker_fires_in_registration_order() {
    let mut overlay = Overlay::new();
    let mut q = SubmissionQueue::new();
    q.submit_marker(Gizmo::at(Vec3i::new(0, 0, -2000)).on_hover(HandlerId(1)));
    q.submit_marker(Gizmo::at(origin()).on_hover(HandlerId(2)));
    let fired = one_tick(&mut overlay, &mut q, Some(ray_through_origin()), false);
    assert_eq!(fired, vec![Callback::Hover(HandlerId(1)), Callback::Hover(HandlerId(2))]);
}
