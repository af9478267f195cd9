//! Input-driven controller behaviors: the decisions of the free-look
//! controller and the idle-rotation behavior.
//!
//! Axis-angle trigonometry and vector normalisation are floating-point
//! work left to the caller; everything decided from plain values lives
//! here — look-angle integration with the pitch clamp, the movement
//! direction summed from the key states and the owner's facing, the boost
//! factor, and the idle rotation's angle and phase bookkeeping. The
//! caller drives the loop: it reads these decisions, does the
//! trigonometry, and applies the result through the world's setters.

use vstd::prelude::*;
use crate::algebra::{Vec2, Vec3, fadd, fmul, fdiv, vec3_zero_s, vec3_add_s, vec3_sub_s,
    quat_conj_s, quat_rotate_s};
use crate::fx::{Fx, FX_ONE, fx_add, fx_mul, fx_clamp, fx_clamp_s};
use crate::input::{InputManager, InputV, KeyState, state_of_s};
use crate::transform::Transform;

verus! {

/// The pitch limit of the free-look controller, 89 degrees in fixed
/// point: looking straight up or down is excluded.
pub const PITCH_LIMIT_DEG: i64 = 5832704;

/// One degree in radians, fixed point, rounded down.
pub const RAD_PER_DEG: i64 = 1143;

/// State of the free-look controller: movement speed, look sensitivity,
/// and the accumulated look angles in degrees.
#[derive(Debug, Clone, Copy, PartialEq, Eq, Structural)]
pub struct FreecamState {
    /// Movement speed in units per second.
    pub move_speed: Fx,
    /// Degrees of look per unit of cursor movement per second.
    pub look_sensitivity: Fx,
    /// Accumulated yaw, in degrees.
    pub yaw: Fx,
    /// Accumulated pitch, in degrees, clamped to the pitch limit.
    pub pitch: Fx,
}

/// The key codes the free-look controller reads, in the caller's
/// windowing-layer encoding.
#[derive(Debug, Clone, Copy, PartialEq, Eq, Structural)]
pub struct FreecamBindings {
    /// Move along the owner's facing.
    pub forward: u32,
    /// Move against the owner's facing.
    pub back: u32,
    /// Move against the owner's right.
    pub left: u32,
    /// Move along the owner's right.
    pub right: u32,
    /// Move straight up.
    pub ascend: u32,
    /// Move straight down.
    pub descend: u32,
    /// Multiply the movement speed by ten while held.
    pub boost: u32,
}

/// One look step: the cursor movement scaled by the sensitivity and the
/// frame delta is added to the angles, and the pitch is clamped to the
/// limit.
pub open spec fn freecam_look_s(s: FreecamState, mouse_delta: Vec2, dt: Fx) -> FreecamState {
    FreecamState {
        yaw: fadd(s.yaw, fmul(fmul(mouse_delta.x, s.look_sensitivity), dt)),
        pitch: fx_clamp_s(
            fadd(s.pitch, fmul(fmul(mouse_delta.y, s.look_sensitivity), dt)) as int,
            -PITCH_LIMIT_DEG as int,
            PITCH_LIMIT_DEG as int,
        ) as i64,
        ..s
    }
}

/// The movement direction summed from the held keys: the owner's facing
/// and right directions and the world's vertical, unnormalised — the
/// caller normalises before applying.
pub open spec fn freecam_direction_s(i: InputV, t: Transform, b: FreecamBindings) -> Vec3 {
    let fwd = quat_rotate_s(quat_conj_s(t.rot), Vec3 { x: 0, y: 0, z: -65536i64 });
    let rgt = quat_rotate_s(quat_conj_s(t.rot), Vec3 { x: 65536i64, y: 0, z: 0 });
    let d0 = vec3_zero_s();
    let d1 = if state_of_s(i.key_states, b.forward) == KeyState::Pressed {
        vec3_add_s(d0, fwd)
    } else {
        d0
    };
    let d2 = if state_of_s(i.key_states, b.back) == KeyState::Pressed {
        vec3_sub_s(d1, fwd)
    } else {
        d1
    };
    let d3 = if state_of_s(i.key_states, b.left) == KeyState::Pressed {
        vec3_sub_s(d2, rgt)
    } else {
        d2
    };
    let d4 = if state_of_s(i.key_states, b.right) == KeyState::Pressed {
        vec3_add_s(d3, rgt)
    } else {
        d3
    };
    let d5 = if state_of_s(i.key_states, b.ascend) == KeyState::Pressed {
        vec3_add_s(d4, Vec3 { x: 0, y: FX_ONE, z: 0 })
    } else {
        d4
    };
    if state_of_s(i.key_states, b.descend) == KeyState::Pressed {
        vec3_add_s(d5, Vec3 { x: 0, y: -65536i64, z: 0 })
    } else {
        d5
    }
}

impl FreecamState {
    /// A fresh controller: speed ten units per second, sensitivity a
    /// tenth of a degree per cursor unit per second, level look angles.
    pub fn new() -> (r: FreecamState)
        ensures
            r == (FreecamState {
                move_speed: 655360i64,
                look_sensitivity: 6553i64,
                yaw: 0i64,
                pitch: 0i64,
            }),
    {
        FreecamState { move_speed: 655360, look_sensitivity: 6553, yaw: 0, pitch: 0 }
    }

    /// Integrate one frame of cursor movement into the look angles,
    /// clamping the pitch.
    pub fn look(&mut self, mouse_delta: Vec2, dt: Fx)
        ensures
            *final(self) == freecam_look_s(*old(self), mouse_delta, dt),
    {
        self.yaw = fx_add(self.yaw, fx_mul(fx_mul(mouse_delta.x, self.look_sensitivity), dt));
        let raw = fx_add(self.pitch, fx_mul(fx_mul(mouse_delta.y, self.look_sensitivity), dt));
        self.pitch = fx_clamp(raw, -PITCH_LIMIT_DEG, PITCH_LIMIT_DEG);
    }

    /// The movement direction the held keys ask for, unnormalised.
    pub fn direction(&self, input: &InputManager, t: &Transform, bindings: &FreecamBindings)
        -> (r: Vec3)
        ensures
            r == freecam_direction_s(input@, *t, *bindings),
    {
        let fwd = t.forward();
        let rgt = t.right();
        let mut d = Vec3::zero();
        if input.is_key_pressed(bindings.forward) {
            d = d.add(&fwd);
        }
        if input.is_key_pressed(bindings.back) {
            d = d.sub(&fwd);
        }
        if input.is_key_pressed(bindings.left) {
            d = d.sub(&rgt);
        }
        if input.is_key_pressed(bindings.right) {
            d = d.add(&rgt);
        }
        if input.is_key_pressed(bindings.ascend) {
            d = d.add(&Vec3 { x: 0, y: FX_ONE, z: 0 });
        }
        if input.is_key_pressed(bindings.descend) {
            d = d.add(&Vec3 { x: 0, y: -65536i64, z: 0 });
        }
        d
    }

    /// The effective movement speed: boosted tenfold while the boost key
    /// is held.
    pub fn speed(&self, input: &InputManager, bindings: &FreecamBindings) -> (r: Fx)
        ensures
            state_of_s(input@.key_states, bindings.boost) == KeyState::Pressed ==> r == fmul(
                self.move_speed,
                655360i64,
            ),
            state_of_s(input@.key_states, bindings.boost) != KeyState::Pressed ==> r
                == self.move_speed,
    {
        if input.is_key_pressed(bindings.boost) {
            fx_mul(self.move_speed, 655360)
        } else {
            self.move_speed
        }
    }
}

/// State of the idle-rotation behavior: the spin speed in degrees per
/// second, the phase counter of the swaying tilt, and the accumulated
/// spin angle in radians.
#[derive(Debug, Clone, Copy, PartialEq, Eq, Structural)]
pub struct RotateState {
    /// Spin speed in degrees per second.
    pub rotate_speed: Fx,
    /// Phase counter, advanced by one per step; the starting value is the
    /// caller's seed, so instances sway out of phase.
    pub iteration: Fx,
    /// Accumulated spin about the vertical, in radians.
    pub y_rot: Fx,
}

/// One step of the idle rotation: the spin angle grows by the speed (in
/// radians) over the frame delta, and the phase counter advances by one.
pub open spec fn rotate_step_s(s: RotateState, dt: Fx) -> RotateState {
    RotateState {
        iteration: fadd(s.iteration, FX_ONE),
        y_rot: fadd(s.y_rot, fmul(fmul(s.rotate_speed, RAD_PER_DEG), dt)),
        ..s
    }
}

impl RotateState {
    /// A fresh spinner at fifty degrees per second; the seed offsets the
    /// sway phase, so the caller may randomise it.
    pub fn new(seed: Fx) -> (r: RotateState)
        ensures
            r == (RotateState { rotate_speed: 3276800i64, iteration: seed, y_rot: 0i64 }),
    {
        RotateState { rotate_speed: 3276800, iteration: seed, y_rot: 0 }
    }

    /// Advance one frame: returns the sway phase — the caller takes its
    /// sine and scales it into the tilt angle — and accumulates the spin.
    pub fn step(&mut self, dt: Fx) -> (phase: Fx)
        ensures
            *final(self) == rotate_step_s(*old(self), dt),
            phase == fdiv(old(self).iteration, 6553600i64),
    {
        let phase = crate::fx::fx_div(self.iteration, 6553600);
        self.y_rot = fx_add(self.y_rot, fx_mul(fx_mul(self.rotate_speed, RAD_PER_DEG), dt));
        self.iteration = fx_add(self.iteration, FX_ONE);
        phase
    }
}

} // verus!
