//! Component attachments: per-kind state, the capability tag used by the
//! checked component query, and the object-local lifecycle steps.
//!
//! A component is a tagged variant rather than a type-erased pointer, so the
//! capability query is a checked, fallible lookup. Every component instance
//! records its owning entity at construction and the owner never changes.
//! Lifecycle per tick: `update` (general behavior), `late_update` (push
//! intent into physics), `post_update` (pull authoritative physics state
//! back), in that order; the world's frame loop drives them.

use vstd::prelude::*;
use crate::algebra::{Vec3, fneg, fmul, fsub, vec3_add_s};
use crate::fx::{Fx, fx_mul, fx_neg, fx_sub};
use crate::object::GameObjectId;
use crate::transform::{Transform, with_caches_s};

verus! {

/// Lifecycle event tag recorded by a trace component: the general update
/// pass.
pub const EV_UPDATE: u8 = 1;

/// Lifecycle event tag recorded by a trace component: the late-update pass.
pub const EV_LATE_UPDATE: u8 = 2;

/// Lifecycle event tag recorded by a trace component: a post-update pass
/// following one fixed physics step.
pub const EV_POST_UPDATE: u8 = 3;

/// The capability tag of a component: which concrete kind it is.
#[derive(Debug, Clone, Copy, PartialEq, Eq, Structural)]
pub enum ComponentKind {
    /// A perspective camera.
    Camera,
    /// Constant downward acceleration applied to the owner's transform.
    Gravity,
    /// Synchronisation with a rigid body of the physics simulation.
    RigidBody,
    /// A diagnostic component that records the order of its lifecycle calls.
    Trace,
}

/// Perspective-projection state of a camera. The aspect ratio is kept as an
/// exact width/height pair; the remaining parameters are fixed-point.
#[derive(Debug, Clone, Copy, PartialEq, Eq, Structural)]
pub struct CameraState {
    /// Width part of the exact aspect ratio.
    pub aspect_w: u32,
    /// Height part of the exact aspect ratio.
    pub aspect_h: u32,
    /// Vertical field of view in degrees.
    pub fov_deg: Fx,
    /// Near clipping distance.
    pub znear: Fx,
    /// Far clipping distance.
    pub zfar: Fx,
}

/// State of the gravity component: a velocity integrated each tick and
/// clamped to a symmetric cap.
#[derive(Debug, Clone, Copy, PartialEq, Eq, Structural)]
pub struct GravityState {
    /// Downward acceleration per second.
    pub acceleration_per_sec: Fx,
    /// Current vertical velocity.
    pub velocity: Fx,
    /// Symmetric cap on the velocity.
    pub max_acceleration: Fx,
}

/// State of the rigid-body synchronisation component: the handle of the
/// body it mirrors.
#[derive(Debug, Clone, Copy, PartialEq, Eq, Structural)]
pub struct RigidBodyState {
    /// Handle into the physics simulation's body table.
    pub body: usize,
}

/// State of the trace component: the recorded lifecycle event tags.
#[derive(Debug, Clone, PartialEq, Eq)]
pub struct TraceState {
    /// Event tags in observation order.
    pub log: Vec<u8>,
}

/// The state of one attached component.
#[derive(Debug, Clone, PartialEq, Eq)]
pub enum ComponentData {
    /// A perspective camera.
    Camera(CameraState),
    /// Constant downward acceleration applied to the owner's transform.
    Gravity(GravityState),
    /// Synchronisation with a rigid body of the physics simulation.
    RigidBody(RigidBodyState),
    /// A diagnostic component that records the order of its lifecycle calls.
    Trace(TraceState),
}

/// Mathematical model of a component's state; the trace log is a sequence.
#[verifier::ext_equal]
pub enum CompDataV {
    /// A perspective camera.
    Camera(CameraState),
    /// Constant downward acceleration applied to the owner's transform.
    Gravity(GravityState),
    /// Synchronisation with a rigid body of the physics simulation.
    RigidBody(RigidBodyState),
    /// A diagnostic component that records the order of its lifecycle calls.
    Trace(Seq<u8>),
}

impl View for ComponentData {
    type V = CompDataV;

    open spec fn view(&self) -> CompDataV {
        match self {
            ComponentData::Camera(c) => CompDataV::Camera(*c),
            ComponentData::Gravity(g) => CompDataV::Gravity(*g),
            ComponentData::RigidBody(r) => CompDataV::RigidBody(*r),
            ComponentData::Trace(t) => CompDataV::Trace(t.log@),
        }
    }
}

/// The kind of a component model.
pub open spec fn kind_of_v(c: CompDataV) -> ComponentKind {
    match c {
        CompDataV::Camera(_) => ComponentKind::Camera,
        CompDataV::Gravity(_) => ComponentKind::Gravity,
        CompDataV::RigidBody(_) => ComponentKind::RigidBody,
        CompDataV::Trace(_) => ComponentKind::Trace,
    }
}

impl ComponentData {
    /// The capability tag of this component.
    pub fn kind(&self) -> (k: ComponentKind)
        ensures
            k == kind_of_v(self@),
    {
        match self {
            ComponentData::Camera(_) => ComponentKind::Camera,
            ComponentData::Gravity(_) => ComponentKind::Gravity,
            ComponentData::RigidBody(_) => ComponentKind::RigidBody,
            ComponentData::Trace(_) => ComponentKind::Trace,
        }
    }
}

/// One attached component: its owning entity and its state. The owner is
/// set at construction and never changes.
#[derive(Debug, Clone, PartialEq, Eq)]
pub struct ComponentSlot {
    /// The entity this component is attached to.
    pub owner: GameObjectId,
    /// The component's state.
    pub data: ComponentData,
}

/// Mathematical model of an attached component.
#[verifier::ext_equal]
pub struct SlotV {
    /// The entity this component is attached to.
    pub owner: GameObjectId,
    /// The component's state.
    pub data: CompDataV,
}

impl View for ComponentSlot {
    type V = SlotV;

    open spec fn view(&self) -> SlotV {
        SlotV { owner: self.owner, data: self.data@ }
    }
}

impl CameraState {
    /// A fresh camera: aspect 800/600, a 60-degree field of view, near
    /// plane at 0.01 and far plane at 1000 (fixed-point).
    pub fn new() -> (r: CameraState)
        ensures
            r == (CameraState {
                aspect_w: 800u32,
                aspect_h: 600u32,
                fov_deg: 3932160i64,
                znear: 655i64,
                zfar: 65536000i64,
            }),
    {
        CameraState {
            aspect_w: 800,
            aspect_h: 600,
            fov_deg: 3932160,
            znear: 655,
            zfar: 65536000,
        }
    }

    /// Replace the projection's aspect ratio by the new surface size,
    /// leaving every other projection parameter as it was.
    pub fn resize(&mut self, width: u32, height: u32)
        ensures
            *final(self) == (CameraState { aspect_w: width, aspect_h: height, ..*old(self) }),
    {
        self.aspect_w = width;
        self.aspect_h = height;
    }
}

impl GravityState {
    /// A fresh gravity component: standard gravity, zero velocity, a cap of
    /// 100 units per second (fixed-point).
    pub fn new() -> (r: GravityState)
        ensures
            r == (GravityState {
                acceleration_per_sec: 642689i64,
                velocity: 0i64,
                max_acceleration: 6553600i64,
            }),
    {
        GravityState { acceleration_per_sec: 642689, velocity: 0, max_acceleration: 6553600 }
    }
}

/// One update step of the gravity component: integrate the velocity, clamp
/// it to the symmetric cap (when the cap is non-negative; a negative cap
/// leaves the velocity unclamped), and translate the owner by the new
/// velocity along the y axis.
pub open spec fn gravity_update_s(g: GravityState, t: Transform, dt_fx: Fx) -> (GravityState,
    Transform) {
    let raw = fsub(g.velocity, fmul(g.acceleration_per_sec, dt_fx));
    let v = if fneg(g.max_acceleration) <= g.max_acceleration {
        if raw < fneg(g.max_acceleration) {
            fneg(g.max_acceleration)
        } else if raw > g.max_acceleration {
            g.max_acceleration
        } else {
            raw
        }
    } else {
        raw
    };
    let delta = Vec3 { x: 0, y: v, z: 0 };
    (
        GravityState { velocity: v, ..g },
        with_caches_s(Transform { pos: vec3_add_s(t.pos, delta), ..t }),
    )
}

/// Run one gravity update against the owner's transform.
pub fn gravity_update(g: &mut GravityState, t: &mut Transform, dt_fx: Fx)
    ensures
        (*final(g), *final(t)) == gravity_update_s(*old(g), *old(t), dt_fx),
{
    let accel = fx_mul(g.acceleration_per_sec, dt_fx);
    let raw = fx_sub(g.velocity, accel);
    let lo = fx_neg(g.max_acceleration);
    let v = if lo <= g.max_acceleration {
        if raw < lo {
            lo
        } else if raw > g.max_acceleration {
            g.max_acceleration
        } else {
            raw
        }
    } else {
        raw
    };
    g.velocity = v;
    t.translate(Vec3 { x: 0, y: v, z: 0 });
}

} // verus!
