use bevy_mod_gizmos::{
    Color, Gizmo, HandlerId, MaterialId, Overlay, Scale3, Shape, SubmissionQueue, Vec3i, Visual,
    FIXED_ONE,
};

fn p(x: i32, y: i32, z: i32) -> Vec3i {
    Vec3i::new(x, y, z)
}

#[test]
fn spawn_makes_one_object_per_marker_and_empties_queue() {
    for n in [0usize, 1, 5] {
        let mut overlay = Overlay::new();
        let mut q = SubmissionQueue::new();
        for i in 0..n {
            q.submit_marker(Gizmo::at(p(i as i32, 0, 0)));
        }
        let report = overlay.spawn(&mut q);
        assert_eq!(report.spawned.len(), n);
        assert_eq!((q.marker_count(), q.line_count()), (0, 0));
        for (i, h) in report.spawned.iter().enumerate() {
            let obj = overlay.object(*h).unwrap();
            assert_eq!(obj.translation, p(i as i32, 0, 0));
            assert!(obj.ephemeral);
        }
    }
}

#[test]
fn spawn_copies_marker_transform_and_shape() {
    let mut overlay = Overlay::new();
    let mut q = SubmissionQueue::new();
    let g = Gizmo::new(p(1, 2, 3), 500, Color::white())
        .with_scale(Scale3 { x: 4, y: 5, z: 6 })
        .with_shape(Shape::Torus);
    q.submit_marker(g);
    let report = overlay.spawn(&mut q);
    let obj = overlay.object(report.spawned[0]).unwrap();
    assert!(matches!(obj.visual, Visual::Marker(Shape::Torus)));
    assert_eq!(obj.scale, Scale3 { x: 4, y: 5, z: 6 });
    assert_eq!(overlay.material_color(obj.material), Some(Color::white()));
}

#[test]
fn markers_of_one_color_share_a_material() {
    let mut overlay = Overlay::new();
    let mut q = SubmissionQueue::new();
    q.submit_marker(Gizmo::new(p(0, 0, 0), 1, Color::red()));
    q.submit_marker(Gizmo::new(p(1, 0, 0), 1, Color::red()));
    q.submit_marker(Gizmo::new(p(2, 0, 0), 1, Color::white()));
    let report = overlay.spawn(&mut q);
    let m: Vec<MaterialId> =
        report.spawned.iter().map(|h| overlay.object(*h).unwrap().material).collect();
    assert_eq!(m[0], m[1]);
    assert_ne!(m[0], m[2]);
    assert_eq!(report.new_materials, vec![MaterialId(0), MaterialId(1)]);
    assert_eq!(overlay.material_count(), 2);
    // The next tick reuses both.
    q.submit_marker(Gizmo::new(p(0, 0, 0), 1, Color::white()));
    let report = overlay.spawn(&mut q);
    assert!(report.new_materials.is_empty());
    assert_eq!(overlay.material_count(), 2);
}

#[test]
fn lines_spawn_after_markers_with_a_strip_mesh() {
    let mut overlay = Overlay::new();
    let mut q = SubmissionQueue::new();
    q.submit_markers(vec![Gizmo::at(p(0, 0, 0)), Gizmo::at(p(10, 0, 0))], true);
    let report = overlay.spawn(&mut q);
    assert_eq!(report.spawned.len(), 3);
    let line = overlay.object(report.spawned[2]).unwrap();
    match &line.visual {
        Visual::Line(mesh) => {
            assert_eq!(mesh.positions, vec![p(0, 0, 0), p(10, 0, 0)]);
            assert_eq!(mesh.indices, vec![0, 1]);
            assert_eq!(mesh.normals, vec![p(0, FIXED_ONE, 0), p(0, FIXED_ONE, 0)]);
            assert_eq!(mesh.uvs, vec![(0, 0), (0, 0)]);
        }
        Visual::Marker(_) => panic!("expected a line"),
    }
    assert_eq!(line.translation, p(0, 0, 0));
    assert_eq!(overlay.material_color(line.material), Some(Color::red()));
}

#[test]
fn cleanup_despawns_last_ticks_ephemeral_objects() {
    let mut overlay = Overlay::new();
    let mut q = SubmissionQueue::new();
    q.submit_marker(Gizmo::at(p(0, 0, 0)));
    q.submit_line(vec![p(0, 0, 0), p(1, 1, 1)], Color::red());
    let report = overlay.spawn(&mut q);
    let despawned = overlay.cleanup();
    assert_eq!(despawned.len(), 2);
    for h in &report.spawned {
        assert!(despawned.contains(h));
        assert!(overlay.object(*h).is_none());
    }
    // Spawning again never revives the old handles.
    q.submit_marker(Gizmo::at(p(0, 0, 0)));
    q.submit_marker(Gizmo::at(p(0, 0, 0)));
    let again = overlay.spawn(&mut q);
    for h in &report.spawned {
        assert!(!again.spawned.contains(h));
        assert!(overlay.object(*h).is_none());
    }
}

#[test]
fn resubmitted_marker_is_a_new_object_each_tick() {
    let mut overlay = Overlay::new();
    let mut q = SubmissionQueue::new();
    q.submit_marker(Gizmo::at(p(0, 0, 0)));
    let first = overlay.spawn(&mut q).spawned[0];
    overlay.cleanup();
    q.submit_marker(Gizmo::at(p(0, 0, 0)));
    let second = overlay.spawn(&mut q).spawned[0];
    assert_ne!(first, second);
    assert!(overlay.object(first).is_none());
    assert!(overlay.object(second).is_some());
}

#[test]
fn persistent_objects_survive_cleanup_until_removed() {
    let mut overlay = Overlay::new();
    let (h, m, created) = overlay.add_persistent(Gizmo::at(p(3, 3, 3)).on_click(HandlerId(1)));
    assert!(created);
    assert_eq!(overlay.material_color(m), Some(Color::red()));
    assert_eq!(overlay.registration_count(), 1);
    assert!(overlay.cleanup().is_empty());
    assert!(!overlay.object(h).unwrap().ephemeral);
    assert!(overlay.remove(h));
    assert!(overlay.object(h).is_none());
    assert!(!overlay.remove(h));
}

#[test]
fn shape_constructors_set_shape_and_scale() {
    let at = p(1, 2, 3);
    let s = Gizmo::sphere(at, 300, Color::red());
    assert_eq!((s.shape, s.scale), (Shape::Sphere, Scale3 { x: 300, y: 300, z: 300 }));
    let c = Gizmo::cube(at, 200, Color::red());
    assert_eq!((c.shape, c.scale), (Shape::Cube, Scale3 { x: 200, y: 200, z: 200 }));
    let b = Gizmo::cuboid(at, Scale3 { x: 1, y: 2, z: 3 }, Color::red());
    assert_eq!((b.shape, b.scale), (Shape::Box, Scale3 { x: 1, y: 2, z: 3 }));
    let m = Gizmo::mesh(at, Scale3 { x: 4, y: 5, z: 6 }, bevy_mod_gizmos::MeshId(9), Color::red());
    assert_eq!(m.shape, Shape::Custom(bevy_mod_gizmos::MeshId(9)));
    assert_eq!(m.translation, at);
}

#[test]
fn registrations_record_bindings_of_interactive_markers_only() {
    let mut overlay = Overlay::new();
    let mut q = SubmissionQueue::new();
    q.submit_marker(Gizmo::at(p(0, 0, 0)));
    q.submit_marker(Gizmo::at(p(0, 0, 0)).on_hover_system(HandlerId(5)));
    let report = overlay.spawn(&mut q);
    assert_eq!(overlay.registration_count(), 1);
    let reg = overlay.registration(0).unwrap();
    assert_eq!(reg.owner, report.spawned[1]);
    assert_eq!(reg.bindings.on_hover_system, Some(HandlerId(5)));
    assert_eq!(reg.age, 0);
    assert!(overlay.registration(1).is_none());
}
