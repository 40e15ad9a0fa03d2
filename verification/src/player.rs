//! Locomotion controller: discrete key state plus the current facing become
//! a per-frame world-space displacement request.
//!
//! The per-frame pipeline is: recompute the intent vector from the held
//! keys, project the facing's forward vector onto the horizontal plane and
//! renormalize it, combine forward and right weighted by the intent,
//! renormalize the sum, then scale by speed and elapsed time. The request is
//! handed to the physics collaborator, which is free to shorten or redirect
//! it; this controller never reads the corrected position back.

use vstd::prelude::*;

verus! {

use crate::vec3::{
    Vec3Fx,
    SCALE,
    norm_sq,
    unit_comp,
    in_normalize_range,
    normalize_or_zero,
    lemma_unit_comp_zero,
    lemma_square_nonneg,
};

/// Ground speed of the controlled actor, in micro-units per second.
pub const PLAYER_SPEED: i64 = 5_000_000;

/// Largest speed accepted by `motion_request`, in micro-units per second.
pub const SPEED_MAX: i64 = 1_000_000_000_000;

/// Largest elapsed frame time accepted by `motion_request`, in microseconds.
pub const TIME_MAX: i64 = 1_000_000_000_000;

/// Per-frame desired-direction signal in actor-local axes: `x` is strafe,
/// `z` is forward/back, each in -1..=1; recomputed from scratch every frame.
#[derive(Clone, Copy, Debug, PartialEq, Eq, Structural)]
pub struct PlayerInput {
    pub direction: Vec3Fx,
}

/// A per-frame world-space displacement, already scaled by speed and
/// elapsed time. Components are exact triple products (direction times
/// speed times time), so they carry three fixed-point scale factors.
#[derive(Clone, Copy, Debug, PartialEq, Eq, Structural)]
pub struct MotionRequest {
    pub x: i128,
    pub y: i128,
    pub z: i128,
}

/// The fatal configuration defects: the locomotion controller ran without
/// the controlled actor's input state, or without an orientation source.
#[derive(Clone, Copy, Debug, PartialEq, Eq, Structural)]
pub enum LocomotionError {
    MissingPlayerInput,
    MissingOrientation,
}

/// Net intent on one axis: held keys on the same axis combine additively,
/// so an opposing pair cancels to zero.
pub open spec fn axis_intent(positive: bool, negative: bool) -> int {
    (if positive {
        1int
    } else {
        0int
    }) - (if negative {
        1int
    } else {
        0int
    })
}

/// Well-formed intent: each axis in -1..=1 and no vertical component.
pub open spec fn intent_wf(i: PlayerInput) -> bool {
    &&& -1 <= i.direction.x <= 1
    &&& i.direction.y == 0
    &&& -1 <= i.direction.z <= 1
}

/// Opposing keys held together yield zero net intent on that axis.
pub proof fn lemma_opposing_keys_cancel(positive: bool, negative: bool)
    ensures
        positive == negative ==> axis_intent(positive, negative) == 0,
{
}

/// Recompute the intent vector from the currently held directional keys.
/// Nothing persists across frames.
pub fn read_player_input(forward: bool, back: bool, left: bool, right: bool) -> (i: PlayerInput)
    ensures
        i.direction.x == axis_intent(right, left),
        i.direction.y == 0,
        i.direction.z == axis_intent(back, forward),
        intent_wf(i),
{
    let mut x: i64 = 0;
    let mut z: i64 = 0;
    if right {
        x = x + 1;
    }
    if left {
        x = x - 1;
    }
    if back {
        z = z + 1;
    }
    if forward {
        z = z - 1;
    }
    PlayerInput { direction: Vec3Fx { x, y: 0, z } }
}

/// Squared length of a vector's horizontal projection.
pub open spec fn hplane_sq(v: Vec3Fx) -> int {
    v.x * v.x + v.z * v.z
}

/// Horizontal direction basis: the facing's forward vector with its
/// vertical component zeroed, renormalized (components of the result).
pub open spec fn basis_forward_x(v: Vec3Fx) -> int {
    unit_comp(v.x as int, hplane_sq(v))
}

pub open spec fn basis_forward_z(v: Vec3Fx) -> int {
    unit_comp(v.z as int, hplane_sq(v))
}

/// Project the facing's forward vector onto the horizontal plane and
/// renormalize; a degenerate (straight up or down) facing yields the zero
/// vector rather than a fault.
pub fn horizontal_forward(v: &Vec3Fx) -> (r: Vec3Fx)
    requires
        in_normalize_range(*v),
    ensures
        r.x == basis_forward_x(*v),
        r.y == 0,
        r.z == basis_forward_z(*v),
        -SCALE <= r.x <= SCALE,
        -SCALE <= r.z <= SCALE,
{
    let flat = Vec3Fx { x: v.x, y: 0, z: v.z };
    let r = normalize_or_zero(&flat);
    proof {
        lemma_square_nonneg(v.x as int);
        lemma_square_nonneg(v.z as int);
        lemma_unit_comp_zero(norm_sq(flat));
    }
    r
}

/// The horizontal right vector: world-up crossed with the horizontal
/// forward, divided by one scale factor.
pub fn right_of(f: &Vec3Fx) -> (r: Vec3Fx)
    requires
        f.x > i64::MIN,
    ensures
        r.x == f.z,
        r.y == 0,
        r.z == -f.x,
{
    Vec3Fx { x: f.z, y: 0, z: -f.x }
}

/// Forward and right weighted by the intent's `z` and `x` and summed:
/// the combined (not yet normalized) direction.
pub open spec fn combined_x(ix: int, iz: int, fx: int, fz: int) -> int {
    iz * fx + ix * fz
}

pub open spec fn combined_z(ix: int, iz: int, fx: int, fz: int) -> int {
    iz * fz - ix * fx
}

pub open spec fn combined_sq(ix: int, iz: int, fx: int, fz: int) -> int {
    combined_x(ix, iz, fx, fz) * combined_x(ix, iz, fx, fz) + combined_z(ix, iz, fx, fz)
        * combined_z(ix, iz, fx, fz)
}

/// The world-space movement direction: the combined vector renormalized,
/// then negated to match the actor-local axis convention (forward intent is
/// negative `z`).
pub open spec fn move_dir_x(ix: int, iz: int, fx: int, fz: int) -> int {
    -unit_comp(combined_x(ix, iz, fx, fz), combined_sq(ix, iz, fx, fz))
}

pub open spec fn move_dir_z(ix: int, iz: int, fx: int, fz: int) -> int {
    -unit_comp(combined_z(ix, iz, fx, fz), combined_sq(ix, iz, fx, fz))
}

/// Zero intent yields the zero direction, whatever the facing: idle is not
/// an error.
pub proof fn lemma_idle_intent_yields_zero(fx: int, fz: int)
    ensures
        move_dir_x(0, 0, fx, fz) == 0,
        move_dir_z(0, 0, fx, fz) == 0,
{
}

/// Product of a -1..=1 intent weight with a unit-range component.
fn scale_unit(k: i64, a: i64) -> (r: i64)
    requires
        -1 <= k <= 1,
        -SCALE <= a <= SCALE,
    ensures
        r == k * a,
        -SCALE <= r <= SCALE,
{
    if k == 1 {
        a
    } else if k == -1 {
        -a
    } else {
        0
    }
}

/// Map the intent into world space using the horizontal direction basis
/// `fwd` (a unit-or-zero horizontal vector): combine forward and right
/// weighted by the intent's `z` and `x`, sum, and renormalize. A zero
/// intent yields the zero direction.
pub fn world_direction(intent: &PlayerInput, fwd: &Vec3Fx) -> (dir: Vec3Fx)
    requires
        intent_wf(*intent),
        fwd.y == 0,
        -SCALE <= fwd.x <= SCALE,
        -SCALE <= fwd.z <= SCALE,
    ensures
        dir.x == move_dir_x(
            intent.direction.x as int,
            intent.direction.z as int,
            fwd.x as int,
            fwd.z as int,
        ),
        dir.y == 0,
        dir.z == move_dir_z(
            intent.direction.x as int,
            intent.direction.z as int,
            fwd.x as int,
            fwd.z as int,
        ),
        -SCALE <= dir.x <= SCALE,
        -SCALE <= dir.z <= SCALE,
{
    let right = right_of(fwd);
    let cx: i64 = scale_unit(intent.direction.z, fwd.x) + scale_unit(intent.direction.x, right.x);
    let cz: i64 = scale_unit(intent.direction.z, fwd.z) + scale_unit(intent.direction.x, right.z);
    let combined = Vec3Fx { x: cx, y: 0, z: cz };
    let n = normalize_or_zero(&combined);
    proof {
        lemma_square_nonneg(cx as int);
        lemma_square_nonneg(cz as int);
        lemma_unit_comp_zero(norm_sq(combined));
        let ix = intent.direction.x as int;
        let fx = fwd.x as int;
        assert(ix * (-fx) == -(ix * fx)) by (nonlinear_arith);
        assert(cz == combined_z(
            intent.direction.x as int,
            intent.direction.z as int,
            fwd.x as int,
            fwd.z as int,
        ));
    }
    n.negate()
}

proof fn lemma_triple_product_bounds(d: int, s: int, t: int)
    by (nonlinear_arith)
    requires
        -1000000 <= d <= 1000000,
        0 <= s <= 1000000000000,
        0 <= t <= 1000000000000,
    ensures
        -1000000000000000000 <= d * s <= 1000000000000000000,
        -1000000000000000000000000000000 <= d * s * t <= 1000000000000000000000000000000,
{
}

/// Scale a unit-range world direction by speed and elapsed frame time.
/// Locomotion is a continuous-rate input, so unlike pointer rotation it is
/// multiplied by elapsed time; the products are exact.
pub fn motion_request(dir: &Vec3Fx, speed: i64, delta_time: i64) -> (m: MotionRequest)
    requires
        -SCALE <= dir.x <= SCALE,
        -SCALE <= dir.y <= SCALE,
        -SCALE <= dir.z <= SCALE,
        0 <= speed <= SPEED_MAX,
        0 <= delta_time <= TIME_MAX,
    ensures
        m.x == dir.x * speed * delta_time,
        m.y == dir.y * speed * delta_time,
        m.z == dir.z * speed * delta_time,
{
    proof {
        lemma_triple_product_bounds(dir.x as int, speed as int, delta_time as int);
        lemma_triple_product_bounds(dir.y as int, speed as int, delta_time as int);
        lemma_triple_product_bounds(dir.z as int, speed as int, delta_time as int);
    }
    let x: i128 = (dir.x as i128) * (speed as i128) * (delta_time as i128);
    let y: i128 = (dir.y as i128) * (speed as i128) * (delta_time as i128);
    let z: i128 = (dir.z as i128) * (speed as i128) * (delta_time as i128);
    MotionRequest { x, y, z }
}

/// One locomotion frame. Absence of the controlled actor's input state, or
/// of the orientation source needed for the direction basis, is a fatal
/// configuration defect reported explicitly, never skipped in silence.
pub fn move_player(
    input: Option<&PlayerInput>,
    camera_forward: Option<Vec3Fx>,
    speed: i64,
    delta_time: i64,
) -> (r: Result<MotionRequest, LocomotionError>)
    requires
        input matches Some(i) ==> intent_wf(*i),
        camera_forward matches Some(f) ==> in_normalize_range(f),
        0 <= speed <= SPEED_MAX,
        0 <= delta_time <= TIME_MAX,
    ensures
        r is Ok <==> (input is Some && camera_forward is Some),
        input is None ==> r == Err::<MotionRequest, LocomotionError>(
            LocomotionError::MissingPlayerInput,
        ),
        input is Some && camera_forward is None ==> r == Err::<MotionRequest, LocomotionError>(
            LocomotionError::MissingOrientation,
        ),
        input matches Some(i) ==> (camera_forward matches Some(f) ==> (r matches Ok(m) && m.x
            == move_dir_x(
            i.direction.x as int,
            i.direction.z as int,
            basis_forward_x(f),
            basis_forward_z(f),
        ) * speed * delta_time && m.y == 0 && m.z == move_dir_z(
            i.direction.x as int,
            i.direction.z as int,
            basis_forward_x(f),
            basis_forward_z(f),
        ) * speed * delta_time)),
{
    let i = match input {
        Some(i) => i,
        None => {
            return Err(LocomotionError::MissingPlayerInput);
        },
    };
    let f = match camera_forward {
        Some(f) => f,
        None => {
            return Err(LocomotionError::MissingOrientation);
        },
    };
    let fwd = horizontal_forward(&f);
    let dir = world_direction(i, &fwd);
    let m = motion_request(&dir, speed, delta_time);
    proof {
        let ix = i.direction.x as int;
        let iz = i.direction.z as int;
        let mdx = move_dir_x(ix, iz, basis_forward_x(f), basis_forward_z(f));
        let mdz = move_dir_z(ix, iz, basis_forward_x(f), basis_forward_z(f));
        assert(dir.x == mdx && dir.z == mdz);
        assert((dir.x as int) * speed * delta_time == mdx * speed * delta_time
            && (dir.z as int) * speed * delta_time == mdz * speed * delta_time && (dir.y as int)
            * speed * delta_time == 0) by (nonlinear_arith)
            requires
                dir.x == mdx,
                dir.z == mdz,
                dir.y == 0,
        ;
    }
    Ok(m)
}

/// With the facing pointed along world-forward (yaw and pitch both zero,
/// so the forward vector is negative `z`) and only the forward key held,
/// the movement direction is exactly the world-forward unit vector.
pub proof fn lemma_forward_drive(f: Vec3Fx)
    requires
        f.x == 0,
        f.y == 0,
        f.z == -SCALE,
    ensures
        basis_forward_x(f) == 0,
        basis_forward_z(f) == -SCALE,
        move_dir_x(0, -1, 0, -SCALE as int) == 0,
        move_dir_z(0, -1, 0, -SCALE as int) == -SCALE,
{
    crate::vec3::lemma_sqrt_floor_unique(1000000000000, 1000000);
    assert(f.x * f.x + f.z * f.z == 1000000000000) by (nonlinear_arith)
        requires
            f.x == 0,
            f.z == -1000000,
    ;
    assert(hplane_sq(f) == 1000000000000);
    assert((-(f.z as int)) * SCALE == 1000000000000) by (nonlinear_arith)
        requires
            f.z == -1000000,
            SCALE == 1000000,
    ;
    assert((f.x as int) * SCALE == 0) by (nonlinear_arith)
        requires
            f.x == 0,
    ;
    assert(basis_forward_x(f) == 0);
    assert(basis_forward_z(f) == -SCALE);
    assert(combined_x(0, -1, 0, -SCALE as int) == 0);
    assert(combined_z(0, -1, 0, -SCALE as int) == 1000000);
    assert(combined_sq(0, -1, 0, -SCALE as int) == 1000000000000);
}

/// Displacement is linear in elapsed time: doubling the frame time exactly
/// doubles each displacement component (so halving it halves them), with
/// the direction unchanged.
pub proof fn lemma_displacement_linear_in_time(d: int, speed: int, t: int)
    by (nonlinear_arith)
    ensures
        d * speed * (2 * t) == 2 * (d * speed * t),
{
}

} // verus!
