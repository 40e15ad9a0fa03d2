use fps_control::follow::{follow_camera, FollowTarget, Transform, TransformStore};
use fps_control::vec3::Vec3Fx;

#[test]
fn camera_moves_to_target_plus_offset_and_faces_target() {
    let mut store = TransformStore::new();
    store.spawn(7, Vec3Fx::new(1_000_000, 2_000_000, 3_000_000));
    let target = FollowTarget { entity: 7, offset: Vec3Fx::new(0, 5_000_000, 10_000_000) };
    let mut camera = Transform {
        translation: Vec3Fx::new(0, 0, 0),
        look_direction: Vec3Fx::new(0, 0, -1_000_000),
    };
    follow_camera(&mut camera, &target, &store);
    assert_eq!(camera.translation, Vec3Fx::new(1_000_000, 7_000_000, 13_000_000));
    // the camera faces from position + offset back toward the position
    assert_eq!(camera.look_direction, Vec3Fx::new(0, -5_000_000, -10_000_000));
}

#[test]
fn despawned_target_keeps_last_camera_placement() {
    let mut store = TransformStore::new();
    store.spawn(7, Vec3Fx::new(1_000_000, 0, 0));
    let target = FollowTarget { entity: 7, offset: Vec3Fx::new(0, 2_000_000, 0) };
    let mut camera = Transform {
        translation: Vec3Fx::new(0, 0, 0),
        look_direction: Vec3Fx::new(0, 0, -1_000_000),
    };
    follow_camera(&mut camera, &target, &store);
    let resolved = camera;
    store.despawn(7);
    // the frame goes on; the camera keeps its last resolved placement
    follow_camera(&mut camera, &target, &store);
    assert_eq!(camera, resolved);
}

#[test]
fn absent_entity_never_resolves() {
    let store = TransformStore::new();
    assert_eq!(store.resolve(42), None);
}

#[test]
fn spawned_entity_resolves_to_its_position() {
    let mut store = TransformStore::new();
    store.spawn(1, Vec3Fx::new(5, 6, 7));
    store.spawn(2, Vec3Fx::new(8, 9, 10));
    assert_eq!(store.resolve(1), Some(Vec3Fx::new(5, 6, 7)));
    assert_eq!(store.resolve(2), Some(Vec3Fx::new(8, 9, 10)));
}

#[test]
fn despawn_removes_only_the_named_entity() {
    let mut store = TransformStore::new();
    store.spawn(1, Vec3Fx::new(5, 6, 7));
    store.spawn(2, Vec3Fx::new(8, 9, 10));
    store.despawn(1);
    assert_eq!(store.resolve(1), None);
    assert_eq!(store.resolve(2), Some(Vec3Fx::new(8, 9, 10)));
}

#[test]
fn zero_offset_places_camera_at_target() {
    let mut store = TransformStore::new();
    store.spawn(3, Vec3Fx::new(-4_000_000, 20_000_000, 0));
    let target = FollowTarget { entity: 3, offset: Vec3Fx::new(0, 0, 0) };
    let mut camera = Transform {
        translation: Vec3Fx::new(1, 1, 1),
        look_direction: Vec3Fx::new(0, 0, -1_000_000),
    };
    follow_camera(&mut camera, &target, &store);
    assert_eq!(camera.translation, Vec3Fx::new(-4_000_000, 20_000_000, 0));
    // a zero offset leaves no look direction: degenerate, not a fault
    assert_eq!(camera.look_direction, Vec3Fx::new(0, 0, 0));
}
