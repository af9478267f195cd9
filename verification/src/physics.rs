//! The physics boundary: the body table and the fixed-size step.
//!
//! The solver proper is an external collaborator consumed as a black box;
//! the core's contract with it is the call pattern — bodies are inserted
//! and queried by handle, and `step` always advances by the same fixed
//! timestep. The minimal simulation kept here integrates linear velocity
//! under gravity for dynamic bodies, exactly, in fixed point.

use vstd::prelude::*;
use crate::algebra::{Vec3, Quat, vec3_add_s, vec3_scale_s};
use crate::fx::Fx;

verus! {

/// One rigid body: pose, linear velocity, and whether the simulation moves
/// it.
#[derive(Debug, Clone, Copy, PartialEq, Eq, Structural)]
pub struct Body {
    /// World-space translation.
    pub translation: Vec3,
    /// World-space rotation.
    pub rotation: Quat,
    /// Linear velocity.
    pub linvel: Vec3,
    /// A dynamic body is advanced by the simulation; a static one is not.
    pub dynamic: bool,
}

/// Mathematical model of the physics state.
#[verifier::ext_equal]
pub struct PhysV {
    /// The bodies, by handle; a removed body leaves an absent slot.
    pub bodies: Seq<Option<Body>>,
    /// Constant acceleration applied to dynamic bodies.
    pub gravity: Vec3,
    /// The fixed timestep, in nanoseconds.
    pub timestep_nanos: u64,
    /// Unsimulated wall-clock time, in nanoseconds.
    pub accumulator_nanos: u64,
    /// Cap on catch-up steps per frame; excess backlog is dropped.
    pub max_steps_per_update: u32,
}

/// The physics simulation: body table and fixed-timestep bookkeeping.
/// Handles are indices into the body table and are never reused.
pub struct PhysicsSim {
    /// The bodies, by handle; a removed body leaves an absent slot.
    pub bodies: Vec<Option<Body>>,
    /// Constant acceleration applied to dynamic bodies.
    pub gravity: Vec3,
    /// The fixed timestep, in nanoseconds.
    pub timestep_nanos: u64,
    /// Unsimulated wall-clock time, in nanoseconds.
    pub accumulator_nanos: u64,
    /// Cap on catch-up steps per frame; excess backlog is dropped.
    pub max_steps_per_update: u32,
}

impl View for PhysicsSim {
    type V = PhysV;

    open spec fn view(&self) -> PhysV {
        PhysV {
            bodies: self.bodies@,
            gravity: self.gravity,
            timestep_nanos: self.timestep_nanos,
            accumulator_nanos: self.accumulator_nanos,
            max_steps_per_update: self.max_steps_per_update,
        }
    }
}

/// Nanoseconds as fixed-point seconds, rounded down.
pub open spec fn dt_fx_s(nanos: u64) -> Fx {
    (((nanos as int) * 65536) / 1000000000) as i64
}

/// Nanoseconds as fixed-point seconds, rounded down.
pub fn dt_fx(nanos: u64) -> (r: Fx)
    ensures
        r == dt_fx_s(nanos),
{
    let wide: u128 = (nanos as u128) * 65536;
    let q: u128 = wide / 1000000000;
    proof {
        assert(q < 0x8000_0000_0000_0000) by (nonlinear_arith)
            requires
                q == wide as int / 1000000000,
                wide as int <= 0xFFFF_FFFF_FFFF_FFFFu64 as int * 65536,
        ;
    }
    q as i64
}

/// One fixed step of a single body: a dynamic body integrates its velocity
/// under gravity and then its translation under the new velocity; any
/// other body is untouched.
pub open spec fn body_step_s(b: Body, gravity: Vec3, dt: Fx) -> Body {
    if b.dynamic {
        let v = vec3_add_s(b.linvel, vec3_scale_s(gravity, dt));
        Body { linvel: v, translation: vec3_add_s(b.translation, vec3_scale_s(v, dt)), ..b }
    } else {
        b
    }
}

/// One fixed step of the whole simulation: every present body steps by the
/// fixed timestep; bookkeeping is untouched.
pub open spec fn phys_step_s(p: PhysV) -> PhysV {
    PhysV {
        bodies: p.bodies.map_values(
            |ob: Option<Body>|
                match ob {
                    Some(b) => Some(body_step_s(b, p.gravity, dt_fx_s(p.timestep_nanos))),
                    None => None,
                },
        ),
        ..p
    }
}

impl PhysicsSim {
    /// A fresh simulation: no bodies, standard gravity downward, a
    /// 60-per-second fixed timestep, and a catch-up cap of 8 steps per
    /// frame.
    pub fn new() -> (r: PhysicsSim)
        ensures
            r@.bodies.len() == 0,
            r@.gravity == (Vec3 { x: 0i64, y: -642689i64, z: 0i64 }),
            r@.timestep_nanos == 16666667u64,
            r@.accumulator_nanos == 0u64,
            r@.max_steps_per_update == 8u32,
    {
        PhysicsSim {
            bodies: Vec::new(),
            gravity: Vec3 { x: 0, y: -642689, z: 0 },
            timestep_nanos: 16666667,
            accumulator_nanos: 0,
            max_steps_per_update: 8,
        }
    }

    /// Insert a body; the returned handle is the number of bodies ever
    /// inserted before it and is never reused.
    pub fn insert_body(&mut self, body: Body) -> (handle: usize)
        ensures
            handle == old(self)@.bodies.len(),
            final(self)@ == (PhysV { bodies: old(self)@.bodies.push(Some(body)), ..old(self)@ }),
    {
        let handle = self.bodies.len();
        self.bodies.push(Some(body));
        handle
    }

    /// Look a body up; absent for an unknown or removed handle.
    pub fn get_body(&self, handle: usize) -> (r: Option<Body>)
        ensures
            handle < self@.bodies.len() ==> r == self@.bodies[handle as int],
            handle >= self@.bodies.len() ==> r is None,
    {
        if handle < self.bodies.len() {
            self.bodies[handle]
        } else {
            None
        }
    }

    /// Replace a present body's state; reports whether the handle was
    /// live. A stale handle is a recoverable absence, not a crash.
    pub fn set_body(&mut self, handle: usize, body: Body) -> (ok: bool)
        ensures
            ok == (handle < old(self)@.bodies.len() && old(self)@.bodies[handle as int] is Some),
            ok ==> final(self)@ == (PhysV {
                bodies: old(self)@.bodies.update(handle as int, Some(body)),
                ..old(self)@
            }),
            !ok ==> *final(self) == *old(self),
    {
        if handle < self.bodies.len() {
            if self.bodies[handle].is_some() {
                self.bodies[handle] = Some(body);
                return true;
            }
        }
        false
    }

    /// Remove a body; its slot stays absent and its handle is never
    /// reused.
    pub fn remove_body(&mut self, handle: usize) -> (ok: bool)
        ensures
            ok == (handle < old(self)@.bodies.len() && old(self)@.bodies[handle as int] is Some),
            ok ==> final(self)@ == (PhysV {
                bodies: old(self)@.bodies.update(handle as int, None),
                ..old(self)@
            }),
            !ok ==> *final(self) == *old(self),
    {
        if handle < self.bodies.len() {
            if self.bodies[handle].is_some() {
                self.bodies[handle] = None;
                return true;
            }
        }
        false
    }

    /// Advance the simulation by exactly one fixed timestep.
    pub fn step(&mut self)
        ensures
            final(self)@ == phys_step_s(old(self)@),
    {
        let dt = dt_fx(self.timestep_nanos);
        let n = self.bodies.len();
        let gravity = self.gravity;
        for i in 0..n
            invariant
                n == self.bodies@.len(),
                gravity == self.gravity,
                dt == dt_fx_s(self.timestep_nanos),
                self.timestep_nanos == old(self).timestep_nanos,
                self.accumulator_nanos == old(self).accumulator_nanos,
                self.max_steps_per_update == old(self).max_steps_per_update,
                self.gravity == old(self).gravity,
                forall|j: int| 0 <= j < i ==> self.bodies@[j] == (match old(self)@.bodies[j] {
                    Some(b) => Some(body_step_s(b, old(self)@.gravity, dt_fx_s(
                        old(self)@.timestep_nanos))),
                    None => None,
                }),
                forall|j: int| i <= j < n ==> self.bodies@[j] == old(self)@.bodies[j],
        {
            let ob = self.bodies[i];
            match ob {
                Some(b) => {
                    if b.dynamic {
                        let v = b.linvel.add(&gravity.scale(dt));
                        let nb = Body {
                            linvel: v,
                            translation: b.translation.add(&v.scale(dt)),
                            ..b
                        };
                        self.bodies[i] = Some(nb);
                    }
                },
                None => {},
            }
        }
        proof {
            assert(self.bodies@ =~= phys_step_s(old(self)@).bodies);
        }
    }
}

} // verus!
