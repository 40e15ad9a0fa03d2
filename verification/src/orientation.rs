//! Orientation controller: accumulates pointer motion into a gimbal-safe
//! yaw/pitch facing.
//!
//! Angles and sensitivities are fixed-point micro-radians (`vec3::SCALE`
//! ticks per radian). Yaw accumulates without bound; pitch is clamped
//! strictly short of straight up or down so the view can never flip past
//! vertical.

use vstd::prelude::*;

verus! {

/// Pitch magnitude cap in micro-radians: pi/2 - 0.01 radians, rounded down.
pub const PITCH_LIMIT: i64 = 1_560_796;

/// Yaw/pitch facing together with the pointer sensitivity, all in
/// micro-radians (per pointer count for the sensitivities).
#[derive(Clone, Copy, Debug, PartialEq, Eq, Structural)]
pub struct CameraController {
    pub yaw: i64,
    pub pitch: i64,
    pub sensitivity_x: i64,
    pub sensitivity_y: i64,
}

/// The gimbal-safety invariant: pitch stays within the clamp band.
pub open spec fn pitch_in_limits(c: CameraController) -> bool {
    -PITCH_LIMIT <= c.pitch <= PITCH_LIMIT
}

/// Pitch clamping: values past either limit freeze at that limit.
pub open spec fn clamp_pitch(p: int) -> int {
    if p < -PITCH_LIMIT {
        -PITCH_LIMIT as int
    } else if p > PITCH_LIMIT {
        PITCH_LIMIT as int
    } else {
        p
    }
}

impl Default for CameraController {
    /// Level facing with the stock sensitivity (0.003 rad and 0.002 rad per
    /// pointer count).
    fn default() -> (c: CameraController)
        ensures
            c.yaw == 0,
            c.pitch == 0,
            c.sensitivity_x == 3000,
            c.sensitivity_y == 2000,
            pitch_in_limits(c),
    {
        CameraController { yaw: 0, pitch: 0, sensitivity_x: 3000, sensitivity_y: 2000 }
    }
}

proof fn lemma_mul_i64_in_i128(a: int, b: int)
    by (nonlinear_arith)
    requires
        i64::MIN <= a <= i64::MAX,
        i64::MIN <= b <= i64::MAX,
    ensures
        -0x4000_0000_0000_0000_0000_0000_0000_0000 <= a * b
            <= 0x4000_0000_0000_0000_0000_0000_0000_0000,
{
}

/// One frame of pointer input: a zero delta changes nothing; otherwise yaw
/// accumulates unclamped and pitch is clamped to the safe band.
///
/// The delta is the pointer displacement accumulated since the previous
/// frame, so it is deliberately not scaled by elapsed time.
pub fn get_camera_input(c: &mut CameraController, delta_x: i64, delta_y: i64)
    requires
        pitch_in_limits(*old(c)),
        i64::MIN <= old(c).yaw - delta_x * old(c).sensitivity_x <= i64::MAX,
    ensures
        delta_x == 0 && delta_y == 0 ==> *final(c) == *old(c),
        !(delta_x == 0 && delta_y == 0) ==> final(c).yaw == old(c).yaw - delta_x * old(
            c,
        ).sensitivity_x,
        !(delta_x == 0 && delta_y == 0) ==> final(c).pitch == clamp_pitch(
            old(c).pitch - delta_y * old(c).sensitivity_y,
        ),
        final(c).sensitivity_x == old(c).sensitivity_x,
        final(c).sensitivity_y == old(c).sensitivity_y,
        pitch_in_limits(*final(c)),
{
    if delta_x == 0 && delta_y == 0 {
        return ;
    }
    proof {
        lemma_mul_i64_in_i128(delta_x as int, c.sensitivity_x as int);
        lemma_mul_i64_in_i128(delta_y as int, c.sensitivity_y as int);
    }
    let delta_yaw: i128 = -((delta_x as i128) * (c.sensitivity_x as i128));
    let new_yaw: i128 = (c.yaw as i128) + delta_yaw;
    c.yaw = new_yaw as i64;
    let delta_pitch: i128 = -((delta_y as i128) * (c.sensitivity_y as i128));
    let candidate: i128 = (c.pitch as i128) + delta_pitch;
    let limit: i128 = PITCH_LIMIT as i128;
    let clamped: i128 = if candidate < -limit {
        -limit
    } else if candidate > limit {
        limit
    } else {
        candidate
    };
    c.pitch = clamped as i64;
}

/// A rotation as intrinsic Euler angles in micro-radians: yaw around the
/// world-up axis, then pitch around the post-yaw local-right axis, then
/// roll. The composition order is load-bearing: any other order would
/// reintroduce roll drift.
#[derive(Clone, Copy, Debug, PartialEq, Eq, Structural)]
pub struct EulerRotation {
    pub yaw: i64,
    pub pitch: i64,
    pub roll: i64,
}

/// Derive the facing's rotation from the controller: exactly its yaw and
/// pitch, with the roll term fixed at zero.
pub fn apply_camera_input(c: &CameraController) -> (r: EulerRotation)
    ensures
        r.yaw == c.yaw,
        r.pitch == c.pitch,
        r.roll == 0,
{
    EulerRotation { yaw: c.yaw, pitch: c.pitch, roll: 0 }
}

/// Pitch after a sequence of per-frame pitch steps (each step already the
/// product of the pointer delta and the sensitivity), clamping at every
/// frame as `get_camera_input` does.
pub open spec fn pitch_after(p0: int, steps: Seq<int>) -> int
    decreases steps.len(),
{
    if steps.len() == 0 {
        p0
    } else {
        clamp_pitch(pitch_after(p0, steps.drop_last()) + steps.last())
    }
}

/// Yaw after a sequence of per-frame yaw steps: plain accumulation, with no
/// clamping at any frame.
pub open spec fn yaw_after(y0: int, steps: Seq<int>) -> int
    decreases steps.len(),
{
    if steps.len() == 0 {
        y0
    } else {
        yaw_after(y0, steps.drop_last()) + steps.last()
    }
}

/// For any sequence of pitch updates, the resulting pitch stays within the
/// clamp band.
pub proof fn lemma_pitch_sequence_in_limits(p0: int, steps: Seq<int>)
    requires
        -PITCH_LIMIT <= p0 <= PITCH_LIMIT,
    ensures
        -PITCH_LIMIT <= pitch_after(p0, steps) <= PITCH_LIMIT,
    decreases steps.len(),
{
    if steps.len() > 0 {
        lemma_pitch_sequence_in_limits(p0, steps.drop_last());
    }
}

/// A step that would push pitch past a limit clamps it exactly to the
/// limit, and repeating the push keeps it pinned there.
pub proof fn lemma_pitch_pinned_at_limit(p: int, step: int)
    ensures
        p + step >= PITCH_LIMIT ==> clamp_pitch(p + step) == PITCH_LIMIT,
        p + step <= -PITCH_LIMIT ==> clamp_pitch(p + step) == -PITCH_LIMIT,
        step >= 0 ==> clamp_pitch(PITCH_LIMIT + step) == PITCH_LIMIT,
        step <= 0 ==> clamp_pitch(-PITCH_LIMIT + step) == -PITCH_LIMIT,
{
}

/// Yaw accumulates without bound: `n` frames of the same yaw step move yaw
/// by exactly `n` times the step, with no clamp or wrap.
pub proof fn lemma_yaw_accumulates(y0: int, step: int, n: nat)
    ensures
        yaw_after(y0, Seq::new(n, |i: int| step)) == y0 + step * n,
    decreases n,
{
    let steps = Seq::new(n, |i: int| step);
    if n == 0 {
        assert(step * 0 == 0) by (nonlinear_arith);
    } else {
        lemma_yaw_accumulates(y0, step, (n - 1) as nat);
        assert(steps.drop_last() =~= Seq::new((n - 1) as nat, |i: int| step));
        assert(step * (n as int) == step * (n - 1) + step) by (nonlinear_arith);
    }
}

} // verus!
