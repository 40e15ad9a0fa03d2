use fps_control::player::{
    move_player, motion_request, read_player_input, world_direction, LocomotionError,
    MotionRequest, PLAYER_SPEED,
};
use fps_control::vec3::Vec3Fx;

#[test]
fn opposing_keys_cancel_on_each_axis() {
    // forward + back held together
    let i = read_player_input(true, true, false, false);
    assert_eq!(i.direction.z, 0);
    assert_eq!(i.direction.x, 0);
    // left + right held together
    let i = read_player_input(false, false, true, true);
    assert_eq!(i.direction.x, 0);
    assert_eq!(i.direction.z, 0);
}

#[test]
fn intent_axes_follow_held_keys() {
    let i = read_player_input(true, false, false, false);
    assert_eq!((i.direction.x, i.direction.y, i.direction.z), (0, 0, -1));
    let i = read_player_input(false, true, false, false);
    assert_eq!((i.direction.x, i.direction.y, i.direction.z), (0, 0, 1));
    let i = read_player_input(false, false, true, false);
    assert_eq!((i.direction.x, i.direction.y, i.direction.z), (-1, 0, 0));
    let i = read_player_input(false, false, false, true);
    assert_eq!((i.direction.x, i.direction.y, i.direction.z), (1, 0, 0));
}

#[test]
fn forward_key_drives_along_world_forward() {
    // facing world-forward: yaw 0, pitch 0, forward vector (0, 0, -1)
    let facing = Vec3Fx::new(0, 0, -1_000_000);
    let input = read_player_input(true, false, false, false);
    let dt: i64 = 16_667;
    let r = move_player(Some(&input), Some(facing), PLAYER_SPEED, dt);
    let m = r.expect("both actor input and orientation are present");
    assert_eq!(m.x, 0);
    assert_eq!(m.y, 0);
    // world-forward unit direction scaled by speed and elapsed time
    assert_eq!(m.z, -(1_000_000i128 * 5_000_000i128 * 16_667i128));
}

#[test]
fn halving_elapsed_time_halves_displacement() {
    let facing = Vec3Fx::new(0, 0, -1_000_000);
    let input = read_player_input(true, false, false, false);
    let whole = move_player(Some(&input), Some(facing), PLAYER_SPEED, 20_000).unwrap();
    let half = move_player(Some(&input), Some(facing), PLAYER_SPEED, 10_000).unwrap();
    assert_eq!(half.z * 2, whole.z);
    assert_eq!(half.x * 2, whole.x);
    assert_eq!(half.x, 0);
}

#[test]
fn zero_intent_yields_zero_displacement_for_any_facing() {
    let input = read_player_input(false, false, false, false);
    let facing = Vec3Fx::new(300_000, -400_000, -500_000);
    let m = move_player(Some(&input), Some(facing), PLAYER_SPEED, 16_667).unwrap();
    assert_eq!(m, MotionRequest { x: 0, y: 0, z: 0 });
}

#[test]
fn vertical_facing_falls_back_to_zero_direction() {
    // facing straight down: horizontal projection is degenerate
    let facing = Vec3Fx::new(0, -1_000_000, 0);
    let input = read_player_input(true, false, false, false);
    let m = move_player(Some(&input), Some(facing), PLAYER_SPEED, 16_667).unwrap();
    assert_eq!(m, MotionRequest { x: 0, y: 0, z: 0 });
}

#[test]
fn missing_player_input_is_a_fatal_condition() {
    let facing = Vec3Fx::new(0, 0, -1_000_000);
    let r = move_player(None, Some(facing), PLAYER_SPEED, 16_667);
    assert_eq!(r, Err(LocomotionError::MissingPlayerInput));
}

#[test]
fn missing_orientation_is_a_fatal_condition() {
    let input = read_player_input(true, false, false, false);
    let r = move_player(Some(&input), None, PLAYER_SPEED, 16_667);
    assert_eq!(r, Err(LocomotionError::MissingOrientation));
}

#[test]
fn forward_and_strafe_combine_diagonally() {
    // forward + right at a world-forward facing: equal positive x and
    // negative z components of the renormalized diagonal
    let input = read_player_input(true, false, false, true);
    let fwd = Vec3Fx::new(0, 0, -1_000_000);
    let dir = world_direction(&input, &fwd);
    assert_eq!((dir.x, dir.y, dir.z), (707_107, 0, -707_107));
}

#[test]
fn motion_request_components_are_exact_products() {
    let dir = Vec3Fx::new(707_107, 0, -707_107);
    let m = motion_request(&dir, PLAYER_SPEED, 16_667);
    assert_eq!(m.x, 707_107i128 * 5_000_000i128 * 16_667i128);
    assert_eq!(m.y, 0);
    assert_eq!(m.z, -(707_107i128 * 5_000_000i128 * 16_667i128));
}
