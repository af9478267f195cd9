//! Component attachment, camera creation, and per-entity spatial setters.
//!
//! A component is constructed with its owning entity's identifier, pushed
//! onto the owner's registration-ordered list, and then initialised — a
//! camera's initialisation flips its owner's invert-position sign, and a
//! rigid-body component registers a body at the owner's current world
//! pose. All operations are checked: a stale identifier is a recoverable
//! no-op.

use vstd::prelude::*;
use crate::algebra::{Vec3, Quat, vec3_zero_s, vec3_comp_mul_s, vec3_comp_div_s,
    quat_mul_s, quat_conj_s, mat4_translation_of_s};
use crate::components::{ComponentSlot, ComponentKind, ComponentData, CompDataV, SlotV,
    CameraState, GravityState, RigidBodyState, TraceState, kind_of_v};
use crate::object::{GameObjectId, ObjV};
use crate::physics::{PhysV, Body};
use crate::spatial::{global_mat_s, global_rot_s, global_scale_s, inv_chain_point_s,
    chain_fuel_s};
use crate::transform::{Transform, with_caches_s, transform_default_s, lemma_with_caches_wf};
use crate::world::{World, WorldV, objs_wf, live_s, obj_of_s, lemma_wf_update,
    lemma_wf_set_none};

verus! {

/// The state a freshly constructed component of the given kind carries;
/// a rigid-body component takes the next body handle.
pub open spec fn new_component_data_s(w: WorldV, kind: ComponentKind) -> CompDataV {
    match kind {
        ComponentKind::Camera => CompDataV::Camera(
            CameraState {
                aspect_w: 800u32,
                aspect_h: 600u32,
                fov_deg: 3932160i64,
                znear: 655i64,
                zfar: 65536000i64,
            },
        ),
        ComponentKind::Gravity => CompDataV::Gravity(
            GravityState {
                acceleration_per_sec: 642689i64,
                velocity: 0i64,
                max_acceleration: 6553600i64,
            },
        ),
        ComponentKind::RigidBody => CompDataV::RigidBody(
            RigidBodyState { body: w.physics.bodies.len() as usize },
        ),
        ComponentKind::Trace => CompDataV::Trace(Seq::empty()),
    }
}

/// The body a rigid-body component registers: the owner's world pose, at
/// rest, dynamic.
pub open spec fn new_body_s(w: WorldV, id: GameObjectId) -> Body {
    Body {
        translation: mat4_translation_of_s(
            global_mat_s(w.objects, Some(id), chain_fuel_s(w.objects)),
        ),
        rotation: global_rot_s(w.objects, Some(id), chain_fuel_s(w.objects)),
        linvel: vec3_zero_s(),
        dynamic: true,
    }
}

/// The first camera component's projection resized to the new surface,
/// searched in registration order; without one, the list is unchanged.
pub open spec fn resize_camera_comps_s(comps: Seq<SlotV>, width: u32, height: u32) -> Seq<SlotV>
    decreases comps.len(),
{
    if comps.len() == 0 {
        comps
    } else {
        match comps[0].data {
            CompDataV::Camera(c) => comps.update(
                0,
                SlotV {
                    data: CompDataV::Camera(
                        CameraState { aspect_w: width, aspect_h: height, ..c },
                    ),
                    ..comps[0]
                },
            ),
            _ => seq![comps[0]] + resize_camera_comps_s(comps.drop_first(), width, height),
        }
    }
}

impl World {
    /// Attach a fresh component of the given kind to an entity: construct
    /// it, register it at the end of the owner's component list, then run
    /// its initialisation — a camera flips its owner's invert-position
    /// sign; a rigid body registers a dynamic body at the owner's world
    /// pose. Reports success; a stale identifier is a recoverable no-op.
    #[verifier::rlimit(100)]
    pub fn add_component(&mut self, id: GameObjectId, kind: ComponentKind) -> (ok: bool)
        requires
            old(self).wf(),
        ensures
            final(self).wf(),
            ok == live_s(old(self)@.objects, id),
            ok ==> final(self)@.objects == old(self)@.objects.update(
                id.0 as int,
                Some(
                    ObjV {
                        components: obj_of_s(old(self)@.objects, id).components.push(
                            SlotV { owner: id, data: new_component_data_s(old(self)@, kind) },
                        ),
                        transform: if kind == ComponentKind::Camera {
                            with_caches_s(
                                Transform {
                                    invert_position: true,
                                    ..obj_of_s(old(self)@.objects, id).transform
                                },
                            )
                        } else {
                            obj_of_s(old(self)@.objects, id).transform
                        },
                        ..obj_of_s(old(self)@.objects, id)
                    },
                ),
            ),
            ok ==> final(self)@.physics == (if kind == ComponentKind::RigidBody {
                PhysV {
                    bodies: old(self)@.physics.bodies.push(
                        Some(new_body_s(old(self)@, id)),
                    ),
                    ..old(self)@.physics
                }
            } else {
                old(self)@.physics
            }),
            final(self)@.children == old(self)@.children,
            final(self)@.active_camera == old(self)@.active_camera,
            final(self)@.input == old(self)@.input,
            final(self)@.last_frame_nanos == old(self)@.last_frame_nanos,
            final(self)@.delta_nanos == old(self)@.delta_nanos,
            !ok ==> final(self)@ == old(self)@,
            final(self).assets == old(self).assets,
    {
        if !id.is_alive(self) {
            return false;
        }
        let ghost w0 = self@;
        let data: ComponentData = match kind {
            ComponentKind::Camera => ComponentData::Camera(CameraState::new()),
            ComponentKind::Gravity => ComponentData::Gravity(GravityState::new()),
            ComponentKind::Trace => ComponentData::Trace(TraceState { log: Vec::new() }),
            ComponentKind::RigidBody => {
                let translation = self.position(id);
                let rotation = self.rotation(id);
                let body = Body {
                    translation,
                    rotation,
                    linvel: Vec3 { x: 0, y: 0, z: 0 },
                    dynamic: true,
                };
                let handle = self.physics.insert_body(body);
                ComponentData::RigidBody(RigidBodyState { body: handle })
            },
        };
        let oo = self.objects.remove(id.0);
        match oo {
            Some(mut obj) => {
                obj.components.push(ComponentSlot { owner: id, data });
                match kind {
                    ComponentKind::Camera => {
                        obj.transform.set_invert_position(true);
                    },
                    _ => {},
                }
                self.objects.insert(id.0, Some(obj));
            },
            None => {
                self.objects.insert(id.0, None);
            },
        }
        proof {
            let o0 = obj_of_s(w0.objects, id);
            let o2 = ObjV {
                components: o0.components.push(
                    SlotV { owner: id, data: new_component_data_s(w0, kind) },
                ),
                transform: if kind == ComponentKind::Camera {
                    with_caches_s(Transform { invert_position: true, ..o0.transform })
                } else {
                    o0.transform
                },
                ..o0
            };
            assert(self@.objects =~~= w0.objects.update(id.0 as int, Some(o2)));
            if kind == ComponentKind::Camera {
                lemma_with_caches_wf(Transform { invert_position: true, ..o0.transform });
            }
            lemma_wf_update(w0.objects, id.0 as int, o2);
        }
        true
    }

    /// Create a camera entity: a fresh entity named `Camera` whose
    /// translation composes after its rotation, with a camera component
    /// attached; it becomes the active camera when none is set.
    #[verifier::rlimit(100)]
    pub fn new_camera(&mut self) -> (id: GameObjectId)
        requires
            old(self).wf(),
        ensures
            final(self).wf(),
            id.0 == old(self)@.objects.len(),
            final(self)@.objects.len() == old(self)@.objects.len() + 1,
            live_s(final(self)@.objects, id),
            forall|k: int|
                0 <= k < old(self)@.objects.len() ==> #[trigger] final(self)@.objects[k] == old(
                    self,
                )@.objects[k],
            obj_of_s(final(self)@.objects, id).components =~~= seq![
                SlotV {
                    owner: id,
                    data: new_component_data_s(old(self)@, ComponentKind::Camera),
                },
            ],
            obj_of_s(final(self)@.objects, id).transform == with_caches_s(
                Transform {
                    invert_position: true,
                    ..with_caches_s(
                        Transform { compound_pos_first: false, ..transform_default_s() },
                    )
                },
            ),
            obj_of_s(final(self)@.objects, id).name == "Camera"@,
            obj_of_s(final(self)@.objects, id).parent is None,
            obj_of_s(final(self)@.objects, id).children == Seq::<GameObjectId>::empty(),
            obj_of_s(final(self)@.objects, id).drawable is None,
            final(self)@.active_camera == (if old(self)@.active_camera is None {
                Some(id)
            } else {
                old(self)@.active_camera
            }),
            final(self)@.children == old(self)@.children,
            final(self)@.physics == old(self)@.physics,
            final(self)@.input == old(self)@.input,
            final(self).assets == old(self).assets,
    {
        let id = self.new_object("Camera");
        let ghost w1 = self@;
        proof {
            assert(self@.objects.len() == old(self)@.objects.len() + 1);
            assert(id.0 < self.objects@.len());
        }
        let oo = self.objects.remove(id.0);
        match oo {
            Some(mut obj) => {
                obj.transform.set_compound_pos_first(false);
                self.objects.insert(id.0, Some(obj));
            },
            None => {
                self.objects.insert(id.0, None);
            },
        }
        proof {
            let o1 = w1.objects[id.0 as int]->Some_0;
            assert(o1.transform == transform_default_s());
            let o2 = ObjV {
                transform: with_caches_s(
                    Transform { compound_pos_first: false, ..o1.transform },
                ),
                ..o1
            };
            assert(self@.objects =~~= old(self)@.objects.push(Some(o2)));
            lemma_with_caches_wf(Transform { compound_pos_first: false, ..o1.transform });
            assert(objs_wf(self@.objects)) by {
                assert forall|i: int| 0 <= i < self@.objects.len() implies match #[trigger]
                    self@.objects[i] {
                    Some(o) => o.id.0 == i && o.transform.wf() && (forall|j: int|
                        0 <= j < o.components.len() ==> (#[trigger] o.components[j]).owner.0
                            == i),
                    None => true,
                } by {
                    if i < old(self)@.objects.len() {
                        assert(self@.objects[i] == old(self)@.objects[i]);
                    }
                }
            }
        }
        self.add_component(id, ComponentKind::Camera);
        if self.active_camera.is_none() {
            self.active_camera = Some(id);
        }
        id
    }

    /// Resize the projection of an entity's first camera component to the
    /// new surface size, leaving its transform — position and rotation —
    /// untouched. Reports whether a live entity with a camera was found.
    #[verifier::rlimit(100)]
    pub fn camera_resize(&mut self, id: GameObjectId, width: u32, height: u32) -> (ok: bool)
        requires
            old(self).wf(),
        ensures
            final(self).wf(),
            ok == (live_s(old(self)@.objects, id) && crate::object::find_component_s(
                obj_of_s(old(self)@.objects, id).components,
                ComponentKind::Camera,
            ) is Some),
            ok ==> final(self)@.objects == old(self)@.objects.update(
                id.0 as int,
                Some(
                    ObjV {
                        components: resize_camera_comps_s(
                            obj_of_s(old(self)@.objects, id).components,
                            width,
                            height,
                        ),
                        ..obj_of_s(old(self)@.objects, id)
                    },
                ),
            ),
            ok ==> obj_of_s(final(self)@.objects, id).transform == obj_of_s(
                old(self)@.objects,
                id,
            ).transform,
            final(self)@.children == old(self)@.children,
            final(self)@.active_camera == old(self)@.active_camera,
            final(self)@.physics == old(self)@.physics,
            final(self)@.input == old(self)@.input,
            final(self)@.last_frame_nanos == old(self)@.last_frame_nanos,
            final(self)@.delta_nanos == old(self)@.delta_nanos,
            !ok ==> final(self)@ == old(self)@,
            final(self).assets == old(self).assets,
    {
        if !id.is_alive(self) {
            return false;
        }
        let ghost w0 = self@;
        let oo = self.objects.remove(id.0);
        let mut found = false;
        match oo {
            Some(mut obj) => {
                let n = obj.components.len();
                let mut found_ix: Option<usize> = None;
                for j in 0..n
                    invariant
                        n == obj.components@.len(),
                        obj@ == obj_of_s(w0.objects, id),
                        match found_ix {
                            Some(ix) => ix < n && kind_of_v(obj@.components[ix as int].data)
                                == ComponentKind::Camera && (forall|k: int|
                                0 <= k < ix ==> kind_of_v(#[trigger] obj@.components[k].data)
                                    != ComponentKind::Camera),
                            None => forall|k: int| 0 <= k < j ==> kind_of_v(
                                #[trigger] obj@.components[k].data,
                            ) != ComponentKind::Camera,
                        },
                {
                    if found_ix.is_none() && obj.components[j].data.kind()
                        == ComponentKind::Camera {
                        found_ix = Some(j);
                    }
                }
                match found_ix {
                    Some(ix) => {
                        let mut slot = obj.components.remove(ix);
                        let data = slot.data;
                        match data {
                            ComponentData::Camera(c0) => {
                                let mut c = c0;
                                c.resize(width, height);
                                slot.data = ComponentData::Camera(c);
                            },
                            other => {
                                slot.data = other;
                            },
                        }
                        obj.components.insert(ix, slot);
                        found = true;
                        proof {
                            let comps0 = obj_of_s(w0.objects, id).components;
                            lemma_resize_at_first_index(comps0, width, height, ix as int);
                            lemma_find_at_first_index(comps0, ix as int);
                            assert(obj@.components =~~= resize_camera_comps_s(
                                comps0,
                                width,
                                height,
                            ));
                        }
                    },
                    None => {
                        proof {
                            lemma_find_none_when_no_camera(
                                obj_of_s(w0.objects, id).components,
                            );
                        }
                    },
                }
                self.objects.insert(id.0, Some(obj));
            },
            None => {
                self.objects.insert(id.0, None);
            },
        }
        proof {
            let o0 = obj_of_s(w0.objects, id);
            if found {
                let o2 = ObjV {
                    components: resize_camera_comps_s(o0.components, width, height),
                    ..o0
                };
                assert(self@.objects =~~= w0.objects.update(id.0 as int, Some(o2)));
                lemma_resize_first_found(o0.components, width, height);
                lemma_wf_update(w0.objects, id.0 as int, o2);
            } else {
                assert(self@.objects =~~= w0.objects);
            }
        }
        found
    }

    /// Set an entity's world-space position: the target is converted to
    /// local space against the parent chain and becomes the new local
    /// position. Reports success; a stale identifier is a recoverable
    /// no-op.
    #[verifier::rlimit(100)]
    pub fn set_position(&mut self, id: GameObjectId, position: Vec3) -> (ok: bool)
        requires
            old(self).wf(),
        ensures
            final(self).wf(),
            ok == live_s(old(self)@.objects, id),
            ok ==> final(self)@.objects == old(self)@.objects.update(
                id.0 as int,
                Some(
                    ObjV {
                        transform: with_caches_s(
                            Transform {
                                pos: inv_chain_point_s(
                                    old(self)@.objects.update(id.0 as int, None),
                                    obj_of_s(old(self)@.objects, id).parent,
                                    position,
                                    chain_fuel_s(old(self)@.objects),
                                ),
                                ..obj_of_s(old(self)@.objects, id).transform
                            },
                        ),
                        ..obj_of_s(old(self)@.objects, id)
                    },
                ),
            ),
            final(self)@.children == old(self)@.children,
            final(self)@.active_camera == old(self)@.active_camera,
            final(self)@.physics == old(self)@.physics,
            final(self)@.input == old(self)@.input,
            final(self)@.last_frame_nanos == old(self)@.last_frame_nanos,
            final(self)@.delta_nanos == old(self)@.delta_nanos,
            !ok ==> final(self)@ == old(self)@,
            final(self).assets == old(self).assets,
    {
        if !id.is_alive(self) {
            return false;
        }
        let ghost w0 = self@;
        let oo = self.objects.remove(id.0);
        self.objects.insert(id.0, None);
        match oo {
            Some(mut obj) => {
                proof {
                    assert(self@.objects =~~= w0.objects.update(id.0 as int, None));
                    lemma_wf_set_none(w0.objects, id.0 as int);
                }
                let fuel = self.objects.len();
                let lp = crate::spatial::inv_chain_point(
                    &self.objects,
                    obj.parent,
                    position,
                    fuel,
                );
                obj.transform.set_local_position(lp);
                self.objects[id.0] = Some(obj);
                proof {
                    let o0 = obj_of_s(w0.objects, id);
                    let o2 = ObjV {
                        transform: with_caches_s(
                            Transform {
                                pos: inv_chain_point_s(
                                    w0.objects.update(id.0 as int, None),
                                    o0.parent,
                                    position,
                                    chain_fuel_s(w0.objects),
                                ),
                                ..o0.transform
                            },
                        ),
                        ..o0
                    };
                    assert(self@.objects =~~= w0.objects.update(id.0 as int, Some(o2)));
                    lemma_wf_update(w0.objects, id.0 as int, o2);
                }
            },
            None => {},
        }
        true
    }

    /// Set an entity's world-space rotation: the new local rotation is the
    /// inverse of the parent chain's rotation composed with the target, so
    /// the chain followed by the new local state gives the target back.
    /// Reports success; a stale identifier is a recoverable no-op.
    #[verifier::rlimit(100)]
    pub fn set_rotation(&mut self, id: GameObjectId, rotation: Quat) -> (ok: bool)
        requires
            old(self).wf(),
        ensures
            final(self).wf(),
            ok == live_s(old(self)@.objects, id),
            ok ==> final(self)@.objects == old(self)@.objects.update(
                id.0 as int,
                Some(
                    ObjV {
                        transform: with_caches_s(
                            Transform {
                                rot: quat_mul_s(
                                    quat_conj_s(
                                        global_rot_s(
                                            old(self)@.objects,
                                            obj_of_s(old(self)@.objects, id).parent,
                                            chain_fuel_s(old(self)@.objects),
                                        ),
                                    ),
                                    rotation,
                                ),
                                ..obj_of_s(old(self)@.objects, id).transform
                            },
                        ),
                        ..obj_of_s(old(self)@.objects, id)
                    },
                ),
            ),
            final(self)@.children == old(self)@.children,
            final(self)@.active_camera == old(self)@.active_camera,
            final(self)@.physics == old(self)@.physics,
            final(self)@.input == old(self)@.input,
            final(self)@.last_frame_nanos == old(self)@.last_frame_nanos,
            final(self)@.delta_nanos == old(self)@.delta_nanos,
            !ok ==> final(self)@ == old(self)@,
            final(self).assets == old(self).assets,
    {
        if !id.is_alive(self) {
            return false;
        }
        let ghost w0 = self@;
        let parent_rot = self.get_global_rotation_ext(id, false);
        let local = parent_rot.conj().mul(&rotation);
        let oo = self.objects.remove(id.0);
        match oo {
            Some(mut obj) => {
                obj.transform.set_local_rotation(local);
                self.objects.insert(id.0, Some(obj));
                proof {
                    let o0 = obj_of_s(w0.objects, id);
                    let o2 = ObjV {
                        transform: with_caches_s(Transform { rot: local, ..o0.transform }),
                        ..o0
                    };
                    assert(self@.objects =~~= w0.objects.update(id.0 as int, Some(o2)));
                    lemma_wf_update(w0.objects, id.0 as int, o2);
                }
            },
            None => {
                self.objects.insert(id.0, None);
                proof {
                    assert(self@.objects =~~= w0.objects);
                }
            },
        }
        true
    }

    /// Set an entity's world-space scale: the new local scale carries the
    /// componentwise ratio of the target to the current world scale.
    /// Reports success; a stale identifier is a recoverable no-op.
    #[verifier::rlimit(100)]
    pub fn set_nonuniform_scale(&mut self, id: GameObjectId, scale: Vec3) -> (ok: bool)
        requires
            old(self).wf(),
        ensures
            final(self).wf(),
            ok == live_s(old(self)@.objects, id),
            ok ==> final(self)@.objects == old(self)@.objects.update(
                id.0 as int,
                Some(
                    ObjV {
                        transform: with_caches_s(
                            Transform {
                                scale: vec3_comp_mul_s(
                                    obj_of_s(old(self)@.objects, id).transform.scale,
                                    vec3_comp_div_s(
                                        scale,
                                        global_scale_s(
                                            old(self)@.objects,
                                            Some(id),
                                            chain_fuel_s(old(self)@.objects),
                                        ),
                                    ),
                                ),
                                ..obj_of_s(old(self)@.objects, id).transform
                            },
                        ),
                        ..obj_of_s(old(self)@.objects, id)
                    },
                ),
            ),
            final(self)@.children == old(self)@.children,
            final(self)@.active_camera == old(self)@.active_camera,
            final(self)@.physics == old(self)@.physics,
            final(self)@.input == old(self)@.input,
            final(self)@.last_frame_nanos == old(self)@.last_frame_nanos,
            final(self)@.delta_nanos == old(self)@.delta_nanos,
            !ok ==> final(self)@ == old(self)@,
            final(self).assets == old(self).assets,
    {
        if !id.is_alive(self) {
            return false;
        }
        let ghost w0 = self@;
        let global = self.scale(id);
        let oo = self.objects.remove(id.0);
        match oo {
            Some(mut obj) => {
                let delta = scale.comp_div(&global);
                let new_local = obj.transform.local_scale().comp_mul(&delta);
                obj.transform.set_nonuniform_local_scale(new_local);
                self.objects.insert(id.0, Some(obj));
                proof {
                    let o0 = obj_of_s(w0.objects, id);
                    let o2 = ObjV {
                        transform: with_caches_s(
                            Transform { scale: new_local, ..o0.transform },
                        ),
                        ..o0
                    };
                    assert(self@.objects =~~= w0.objects.update(id.0 as int, Some(o2)));
                    lemma_wf_update(w0.objects, id.0 as int, o2);
                }
            },
            None => {
                self.objects.insert(id.0, None);
                proof {
                    assert(self@.objects =~~= w0.objects);
                }
            },
        }
        true
    }

    /// Set an entity's world-space scale uniformly.
    pub fn set_uniform_scale(&mut self, id: GameObjectId, factor: crate::fx::Fx) -> (ok: bool)
        requires
            old(self).wf(),
        ensures
            final(self).wf(),
            ok == live_s(old(self)@.objects, id),
            ok ==> final(self)@.objects == old(self)@.objects.update(
                id.0 as int,
                Some(
                    ObjV {
                        transform: with_caches_s(
                            Transform {
                                scale: vec3_comp_mul_s(
                                    obj_of_s(old(self)@.objects, id).transform.scale,
                                    vec3_comp_div_s(
                                        Vec3 { x: factor, y: factor, z: factor },
                                        global_scale_s(
                                            old(self)@.objects,
                                            Some(id),
                                            chain_fuel_s(old(self)@.objects),
                                        ),
                                    ),
                                ),
                                ..obj_of_s(old(self)@.objects, id).transform
                            },
                        ),
                        ..obj_of_s(old(self)@.objects, id)
                    },
                ),
            ),
            !ok ==> final(self)@ == old(self)@,
            final(self)@.children == old(self)@.children,
            final(self)@.active_camera == old(self)@.active_camera,
            final(self)@.physics == old(self)@.physics,
            final(self)@.input == old(self)@.input,
            final(self).assets == old(self).assets,
    {
        self.set_nonuniform_scale(id, Vec3 { x: factor, y: factor, z: factor })
    }

    /// Compose a translation onto an entity's local position. Reports
    /// success; a stale identifier is a recoverable no-op.
    pub fn translate(&mut self, id: GameObjectId, delta: Vec3) -> (ok: bool)
        requires
            old(self).wf(),
        ensures
            final(self).wf(),
            ok == live_s(old(self)@.objects, id),
            ok ==> final(self)@.objects == old(self)@.objects.update(
                id.0 as int,
                Some(
                    ObjV {
                        transform: with_caches_s(
                            Transform {
                                pos: crate::algebra::vec3_add_s(
                                    obj_of_s(old(self)@.objects, id).transform.pos,
                                    delta,
                                ),
                                ..obj_of_s(old(self)@.objects, id).transform
                            },
                        ),
                        ..obj_of_s(old(self)@.objects, id)
                    },
                ),
            ),
            final(self)@.children == old(self)@.children,
            final(self)@.active_camera == old(self)@.active_camera,
            final(self)@.physics == old(self)@.physics,
            final(self)@.input == old(self)@.input,
            final(self)@.last_frame_nanos == old(self)@.last_frame_nanos,
            final(self)@.delta_nanos == old(self)@.delta_nanos,
            !ok ==> final(self)@ == old(self)@,
            final(self).assets == old(self).assets,
    {
        if !id.is_alive(self) {
            return false;
        }
        let ghost w0 = self@;
        let oo = self.objects.remove(id.0);
        match oo {
            Some(mut obj) => {
                obj.transform.translate(delta);
                self.objects.insert(id.0, Some(obj));
                proof {
                    let o0 = obj_of_s(w0.objects, id);
                    let o2 = ObjV {
                        transform: with_caches_s(
                            Transform {
                                pos: crate::algebra::vec3_add_s(o0.transform.pos, delta),
                                ..o0.transform
                            },
                        ),
                        ..o0
                    };
                    assert(self@.objects =~~= w0.objects.update(id.0 as int, Some(o2)));
                    lemma_wf_update(w0.objects, id.0 as int, o2);
                }
            },
            None => {
                self.objects.insert(id.0, None);
                proof {
                    assert(self@.objects =~~= w0.objects);
                }
            },
        }
        true
    }

    /// Replace an entity's local rotation directly. Reports success; a
    /// stale identifier is a recoverable no-op.
    pub fn set_local_rotation(&mut self, id: GameObjectId, rotation: Quat) -> (ok: bool)
        requires
            old(self).wf(),
        ensures
            final(self).wf(),
            ok == live_s(old(self)@.objects, id),
            ok ==> final(self)@.objects == old(self)@.objects.update(
                id.0 as int,
                Some(
                    ObjV {
                        transform: with_caches_s(
                            Transform {
                                rot: rotation,
                                ..obj_of_s(old(self)@.objects, id).transform
                            },
                        ),
                        ..obj_of_s(old(self)@.objects, id)
                    },
                ),
            ),
            final(self)@.children == old(self)@.children,
            final(self)@.active_camera == old(self)@.active_camera,
            final(self)@.physics == old(self)@.physics,
            final(self)@.input == old(self)@.input,
            final(self)@.last_frame_nanos == old(self)@.last_frame_nanos,
            final(self)@.delta_nanos == old(self)@.delta_nanos,
            !ok ==> final(self)@ == old(self)@,
            final(self).assets == old(self).assets,
    {
        if !id.is_alive(self) {
            return false;
        }
        let ghost w0 = self@;
        let oo = self.objects.remove(id.0);
        match oo {
            Some(mut obj) => {
                obj.transform.set_local_rotation(rotation);
                self.objects.insert(id.0, Some(obj));
                proof {
                    let o0 = obj_of_s(w0.objects, id);
                    let o2 = ObjV {
                        transform: with_caches_s(Transform { rot: rotation, ..o0.transform }),
                        ..o0
                    };
                    assert(self@.objects =~~= w0.objects.update(id.0 as int, Some(o2)));
                    lemma_wf_update(w0.objects, id.0 as int, o2);
                }
            },
            None => {
                self.objects.insert(id.0, None);
                proof {
                    assert(self@.objects =~~= w0.objects);
                }
            },
        }
        true
    }

    /// Replace an entity's local position directly. Reports success; a
    /// stale identifier is a recoverable no-op.
    pub fn set_local_position(&mut self, id: GameObjectId, position: Vec3) -> (ok: bool)
        requires
            old(self).wf(),
        ensures
            final(self).wf(),
            ok == live_s(old(self)@.objects, id),
            ok ==> final(self)@.objects == old(self)@.objects.update(
                id.0 as int,
                Some(
                    ObjV {
                        transform: with_caches_s(
                            Transform {
                                pos: position,
                                ..obj_of_s(old(self)@.objects, id).transform
                            },
                        ),
                        ..obj_of_s(old(self)@.objects, id)
                    },
                ),
            ),
            final(self)@.children == old(self)@.children,
            final(self)@.active_camera == old(self)@.active_camera,
            final(self)@.physics == old(self)@.physics,
            final(self)@.input == old(self)@.input,
            final(self)@.last_frame_nanos == old(self)@.last_frame_nanos,
            final(self)@.delta_nanos == old(self)@.delta_nanos,
            !ok ==> final(self)@ == old(self)@,
            final(self).assets == old(self).assets,
    {
        if !id.is_alive(self) {
            return false;
        }
        let ghost w0 = self@;
        let oo = self.objects.remove(id.0);
        match oo {
            Some(mut obj) => {
                obj.transform.set_local_position(position);
                self.objects.insert(id.0, Some(obj));
                proof {
                    let o0 = obj_of_s(w0.objects, id);
                    let o2 = ObjV {
                        transform: with_caches_s(
                            Transform { pos: position, ..o0.transform },
                        ),
                        ..o0
                    };
                    assert(self@.objects =~~= w0.objects.update(id.0 as int, Some(o2)));
                    lemma_wf_update(w0.objects, id.0 as int, o2);
                }
            },
            None => {
                self.objects.insert(id.0, None);
                proof {
                    assert(self@.objects =~~= w0.objects);
                }
            },
        }
        true
    }
}

/// Resizing at the first camera index agrees with the recursive
/// definition.
proof fn lemma_resize_at_first_index(comps: Seq<SlotV>, width: u32, height: u32, ix: int)
    requires
        0 <= ix < comps.len(),
        kind_of_v(comps[ix].data) == ComponentKind::Camera,
        forall|k: int| 0 <= k < ix ==> kind_of_v(#[trigger] comps[k].data)
            != ComponentKind::Camera,
    ensures
        resize_camera_comps_s(comps, width, height) =~~= comps.update(
            ix,
            SlotV {
                data: CompDataV::Camera(
                    CameraState {
                        aspect_w: width,
                        aspect_h: height,
                        ..comps[ix].data->Camera_0
                    },
                ),
                ..comps[ix]
            },
        ),
    decreases comps.len(),
{
    if ix == 0 {
    } else {
        lemma_resize_at_first_index(comps.drop_first(), width, height, ix - 1);
        assert(seq![comps[0]] + comps.drop_first().update(
            ix - 1,
            SlotV {
                data: CompDataV::Camera(
                    CameraState {
                        aspect_w: width,
                        aspect_h: height,
                        ..comps[ix].data->Camera_0
                    },
                ),
                ..comps[ix]
            },
        ) =~~= comps.update(
            ix,
            SlotV {
                data: CompDataV::Camera(
                    CameraState {
                        aspect_w: width,
                        aspect_h: height,
                        ..comps[ix].data->Camera_0
                    },
                ),
                ..comps[ix]
            },
        ));
    }
}

/// When a camera is present, the resized list keeps every slot's owner,
/// so the table invariant is preserved.
proof fn lemma_resize_first_found(comps: Seq<SlotV>, width: u32, height: u32)
    ensures
        resize_camera_comps_s(comps, width, height).len() == comps.len(),
        forall|k: int| 0 <= k < comps.len() ==> #[trigger] resize_camera_comps_s(
            comps,
            width,
            height,
        )[k].owner == comps[k].owner,
    decreases comps.len(),
{
    if comps.len() == 0 {
    } else {
        match comps[0].data {
            CompDataV::Camera(_) => {},
            _ => {
                lemma_resize_first_found(comps.drop_first(), width, height);
            },
        }
    }
}

/// With the first camera component at a known index, the search finds it.
proof fn lemma_find_at_first_index(comps: Seq<SlotV>, ix: int)
    requires
        0 <= ix < comps.len(),
        kind_of_v(comps[ix].data) == ComponentKind::Camera,
        forall|k: int| 0 <= k < ix ==> kind_of_v(#[trigger] comps[k].data)
            != ComponentKind::Camera,
    ensures
        crate::object::find_component_s(comps, ComponentKind::Camera) == Some(comps[ix]),
    decreases comps.len(),
{
    if ix == 0 {
    } else {
        assert forall|k: int| 0 <= k < ix - 1 implies kind_of_v(
            #[trigger] comps.drop_first()[k].data,
        ) != ComponentKind::Camera by {
            assert(comps.drop_first()[k] == comps[k + 1]);
        }
        assert(comps.drop_first()[ix - 1] == comps[ix]);
        lemma_find_at_first_index(comps.drop_first(), ix - 1);
    }
}

/// Without a camera component, the search finds nothing.
proof fn lemma_find_none_when_no_camera(comps: Seq<SlotV>)
    requires
        forall|k: int| 0 <= k < comps.len() ==> kind_of_v(#[trigger] comps[k].data)
            != ComponentKind::Camera,
    ensures
        crate::object::find_component_s(comps, ComponentKind::Camera) is None,
    decreases comps.len(),
{
    if comps.len() == 0 {
    } else {
        assert forall|k: int| 0 <= k < comps.drop_first().len() implies kind_of_v(
            #[trigger] comps.drop_first()[k].data,
        ) != ComponentKind::Camera by {
            assert(comps.drop_first()[k] == comps[k + 1]);
        }
        lemma_find_none_when_no_camera(comps.drop_first());
    }
}

} // verus!
