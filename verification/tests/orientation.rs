use fps_control::orientation::{
    apply_camera_input, get_camera_input, CameraController, EulerRotation, PITCH_LIMIT,
};

#[test]
fn default_controller_is_level_with_stock_sensitivity() {
    let c = CameraController::default();
    assert_eq!(c.yaw, 0);
    assert_eq!(c.pitch, 0);
    assert_eq!(c.sensitivity_x, 3000);
    assert_eq!(c.sensitivity_y, 2000);
}

#[test]
fn zero_delta_leaves_facing_unchanged() {
    let mut c = CameraController { yaw: 123_456, pitch: -654_321, sensitivity_x: 3000, sensitivity_y: 2000 };
    let before = c;
    get_camera_input(&mut c, 0, 0);
    assert_eq!(c, before);
}

#[test]
fn one_frame_applies_sensitivity_scaled_delta() {
    let mut c = CameraController::default();
    get_camera_input(&mut c, 2, -3);
    assert_eq!(c.yaw, -6000);
    assert_eq!(c.pitch, 6000);
}

#[test]
fn pitch_clamps_exactly_at_upper_limit() {
    let mut c = CameraController::default();
    // candidate pitch would be +2_000_000, past the limit
    get_camera_input(&mut c, 0, -1000);
    assert_eq!(c.pitch, PITCH_LIMIT);
    // pushing further keeps it pinned at the limit, not past it
    get_camera_input(&mut c, 0, -1000);
    assert_eq!(c.pitch, PITCH_LIMIT);
}

#[test]
fn pitch_clamps_exactly_at_lower_limit() {
    let mut c = CameraController::default();
    get_camera_input(&mut c, 0, 1000);
    assert_eq!(c.pitch, -PITCH_LIMIT);
    get_camera_input(&mut c, 0, 1000);
    assert_eq!(c.pitch, -PITCH_LIMIT);
}

#[test]
fn yaw_accumulates_unclamped_over_many_frames() {
    let mut c = CameraController::default();
    let mut frame: u32 = 0;
    while frame < 1000 {
        get_camera_input(&mut c, -1, 0);
        frame += 1;
    }
    // 1000 frames of a -1 pointer delta at sensitivity 0.003 rad: +3.0 rad
    assert_eq!(c.yaw, 3_000_000);
    assert_eq!(c.pitch, 0);
}

#[test]
fn derived_rotation_is_yaw_pitch_with_zero_roll() {
    let c = CameraController { yaw: 123_000, pitch: -456_000, sensitivity_x: 3000, sensitivity_y: 2000 };
    let r = apply_camera_input(&c);
    assert_eq!(r, EulerRotation { yaw: 123_000, pitch: -456_000, roll: 0 });
}

#[test]
fn yaw_is_never_clamped_while_pitch_is() {
    let mut c = CameraController::default();
    get_camera_input(&mut c, -2_000_000, 2_000_000);
    assert_eq!(c.yaw, 6_000_000_000);
    assert_eq!(c.pitch, -PITCH_LIMIT);
}
