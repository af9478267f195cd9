//! The per-frame orchestration point: one tick of the world.
//!
//! Order within a tick: delta-time bookkeeping, the update pass over every
//! component of every entity in identifier order, the late-update pass in
//! the same order, then the physics sub-loop — while a whole fixed
//! timestep of unsimulated time is owed and the per-frame cap is not hit,
//! one fixed step runs followed by a post-update pass — and finally the
//! input snapshot's per-frame state is cleared. The accumulator keeps the
//! remainder below one timestep; backlog beyond the cap is dropped,
//! trading temporary slow motion for a bounded frame.

use vstd::prelude::*;
use crate::algebra::{Vec3, Quat, quat_mul_s, quat_conj_s, mat4_mul_s, mat4_translation_of_s};
use crate::components::{ComponentData, CompDataV, SlotV, gravity_update_s, gravity_update,
    EV_UPDATE, EV_LATE_UPDATE, EV_POST_UPDATE};
use crate::fx::Fx;
use crate::input::next_frame_s;
use crate::object::{GameObject, GameObjectId, ObjV};
use crate::physics::{PhysV, Body, dt_fx_s, dt_fx, phys_step_s};
use crate::spatial::{global_mat_s, global_rot_s, inv_chain_point_s, chain_fuel_s};
use crate::transform::{Transform, local_compound_s, with_caches_s};
use crate::world::{World, WorldV, objs_v, objs_wf};

verus! {

/// Saturating addition of nanosecond counters.
pub open spec fn sat_add_u64_s(a: u64, b: u64) -> u64 {
    if a + b > u64::MAX {
        u64::MAX
    } else {
        (a + b) as u64
    }
}

/// One update step of one component against its owner's transform: the
/// gravity component integrates, a trace component records the event,
/// every other component is unchanged.
pub open spec fn comp_update_s(c: CompDataV, t: Transform, dtf: Fx) -> (CompDataV, Transform) {
    match c {
        CompDataV::Gravity(g) => {
            let r = gravity_update_s(g, t, dtf);
            (CompDataV::Gravity(r.0), r.1)
        },
        CompDataV::Trace(log) => (CompDataV::Trace(log.push(EV_UPDATE)), t),
        CompDataV::Camera(_) => (c, t),
        CompDataV::RigidBody(_) => (c, t),
    }
}

/// The update pass over one entity's components from index `j` on, in
/// registration order, threading the transform through.
pub open spec fn obj_update_from_s(comps: Seq<SlotV>, t: Transform, dtf: Fx, j: int) -> (
    Seq<SlotV>, Transform)
    decreases comps.len() - j,
{
    if j < 0 || j >= comps.len() {
        (comps, t)
    } else {
        let r = comp_update_s(comps[j].data, t, dtf);
        obj_update_from_s(
            comps.update(j, SlotV { data: r.0, ..comps[j] }),
            r.1,
            dtf,
            j + 1,
        )
    }
}

/// The update pass over one entity.
pub open spec fn obj_after_update_s(o: ObjV, dtf: Fx) -> ObjV {
    let r = obj_update_from_s(o.components, o.transform, dtf, 0);
    ObjV { components: r.0, transform: r.1, ..o }
}

/// The update pass over the whole table, in identifier order.
pub open spec fn update_pass_s(objs: Seq<Option<ObjV>>, dtf: Fx) -> Seq<Option<ObjV>> {
    objs.map_values(
        |oo: Option<ObjV>|
            match oo {
                Some(o) => Some(obj_after_update_s(o, dtf)),
                None => None,
            },
    )
}

/// The world pose an entity's transform composes to: its parent chain is
/// walked in the given table (the entity's own slot is absent there), the
/// entity's own local matrix composed last.
pub open spec fn world_translation_s(rest: Seq<Option<ObjV>>, parent: Option<GameObjectId>,
    t: Transform) -> Vec3 {
    mat4_translation_of_s(
        mat4_mul_s(global_mat_s(rest, parent, chain_fuel_s(rest)), local_compound_s(t)),
    )
}

/// The world rotation an entity's transform composes to.
pub open spec fn world_rotation_s(rest: Seq<Option<ObjV>>, parent: Option<GameObjectId>,
    t: Transform) -> Quat {
    quat_mul_s(global_rot_s(rest, parent, chain_fuel_s(rest)), t.rot)
}

/// One late-update step of one component: a rigid-body component pushes
/// its owner's world pose into its body — a stale handle is a recoverable
/// absence — a trace component records the event, every other component
/// leaves the simulation untouched.
pub open spec fn comp_late_s(rest: Seq<Option<ObjV>>, parent: Option<GameObjectId>,
    t: Transform, c: CompDataV, phys: PhysV) -> (CompDataV, PhysV) {
    match c {
        CompDataV::Trace(log) => (CompDataV::Trace(log.push(EV_LATE_UPDATE)), phys),
        CompDataV::RigidBody(rb) => if rb.body < phys.bodies.len() && phys.bodies[rb.body as int]
            is Some {
            let b = phys.bodies[rb.body as int]->Some_0;
            let nb = Body {
                translation: world_translation_s(rest, parent, t),
                rotation: world_rotation_s(rest, parent, t),
                ..b
            };
            (c, PhysV { bodies: phys.bodies.update(rb.body as int, Some(nb)), ..phys })
        } else {
            (c, phys)
        },
        CompDataV::Camera(_) => (c, phys),
        CompDataV::Gravity(_) => (c, phys),
    }
}

/// The late pass over one entity's components from index `j` on.
pub open spec fn obj_late_from_s(rest: Seq<Option<ObjV>>, parent: Option<GameObjectId>,
    t: Transform, comps: Seq<SlotV>, phys: PhysV, j: int) -> (Seq<SlotV>, PhysV)
    decreases comps.len() - j,
{
    if j < 0 || j >= comps.len() {
        (comps, phys)
    } else {
        let r = comp_late_s(rest, parent, t, comps[j].data, phys);
        obj_late_from_s(
            rest,
            parent,
            t,
            comps.update(j, SlotV { data: r.0, ..comps[j] }),
            r.1,
            j + 1,
        )
    }
}

/// The late pass over the table from slot `i` on, in identifier order;
/// each entity's hooks see the table with its own slot absent.
pub open spec fn late_pass_from_s(objs: Seq<Option<ObjV>>, phys: PhysV, i: int) -> (
    Seq<Option<ObjV>>, PhysV)
    decreases objs.len() - i,
{
    if i < 0 || i >= objs.len() {
        (objs, phys)
    } else {
        match objs[i] {
            Some(o) => {
                let rest = objs.update(i, None);
                let r = obj_late_from_s(rest, o.parent, o.transform, o.components, phys, 0);
                late_pass_from_s(
                    objs.update(i, Some(ObjV { components: r.0, ..o })),
                    r.1,
                    i + 1,
                )
            },
            None => late_pass_from_s(objs, phys, i + 1),
        }
    }
}

/// The transform that results from pulling a body's world pose into an
/// entity: the world translation converted to local space against the
/// parent chain, then the world rotation converted against the chain's
/// composed rotation.
#[verifier::opaque]
pub open spec fn body_pose_transform_s(rest: Seq<Option<ObjV>>, parent: Option<GameObjectId>,
    t: Transform, b: Body) -> Transform {
    let fuel = chain_fuel_s(rest);
    let lp = inv_chain_point_s(rest, parent, b.translation, fuel);
    let t1 = with_caches_s(Transform { pos: lp, ..t });
    let lr = quat_mul_s(quat_conj_s(global_rot_s(rest, parent, fuel)), b.rotation);
    with_caches_s(Transform { rot: lr, ..t1 })
}

/// Pull a body's world pose into an entity's transform.
fn apply_body_pose(rest: &Vec<Option<GameObject>>, parent: Option<GameObjectId>,
    t: &mut Transform, b: Body)
    requires
        objs_wf(objs_v(rest@)),
    ensures
        *final(t) == body_pose_transform_s(objs_v(rest@), parent, *old(t), b),
{
    proof {
        reveal(body_pose_transform_s);
    }
    let fuel = rest.len();
    let lp = crate::spatial::inv_chain_point(rest, parent, b.translation, fuel);
    t.set_local_position(lp);
    let lr = crate::spatial::global_rot_of(rest, parent, fuel).conj().mul(&b.rotation);
    t.set_local_rotation(lr);
}

/// One post-update step of one component: a rigid-body component pulls its
/// dynamic body's authoritative pose back into its owner's transform —
/// world position then world rotation, each converted to local space
/// against the parent chain — a trace component records the event, every
/// other component is unchanged.
#[verifier::opaque]
pub open spec fn comp_post_s(rest: Seq<Option<ObjV>>, parent: Option<GameObjectId>,
    c: CompDataV, t: Transform, phys: PhysV) -> (CompDataV, Transform) {
    match c {
        CompDataV::Trace(log) => (CompDataV::Trace(log.push(EV_POST_UPDATE)), t),
        CompDataV::RigidBody(rb) => if rb.body < phys.bodies.len() && phys.bodies[rb.body as int]
            is Some && phys.bodies[rb.body as int]->Some_0.dynamic {
            let b = phys.bodies[rb.body as int]->Some_0;
            (c, body_pose_transform_s(rest, parent, t, b))
        } else {
            (c, t)
        },
        CompDataV::Camera(_) => (c, t),
        CompDataV::Gravity(_) => (c, t),
    }
}

/// The post pass over one entity's components from index `j` on,
/// threading the transform through.
pub open spec fn obj_post_from_s(rest: Seq<Option<ObjV>>, parent: Option<GameObjectId>,
    comps: Seq<SlotV>, t: Transform, phys: PhysV, j: int) -> (Seq<SlotV>, Transform)
    decreases comps.len() - j,
{
    if j < 0 || j >= comps.len() {
        (comps, t)
    } else {
        let r = comp_post_s(rest, parent, comps[j].data, t, phys);
        obj_post_from_s(
            rest,
            parent,
            comps.update(j, SlotV { data: r.0, ..comps[j] }),
            r.1,
            phys,
            j + 1,
        )
    }
}

/// The post pass over the table from slot `i` on, in identifier order;
/// each entity's hooks see the table with its own slot absent, so earlier
/// entities' new transforms are observed.
pub open spec fn post_pass_from_s(objs: Seq<Option<ObjV>>, phys: PhysV, i: int) -> Seq<
    Option<ObjV>,
>
    decreases objs.len() - i,
{
    if i < 0 || i >= objs.len() {
        objs
    } else {
        match objs[i] {
            Some(o) => {
                let rest = objs.update(i, None);
                let r = obj_post_from_s(rest, o.parent, o.components, o.transform, phys, 0);
                post_pass_from_s(
                    objs.update(i, Some(ObjV { components: r.0, transform: r.1, ..o })),
                    phys,
                    i + 1,
                )
            },
            None => post_pass_from_s(objs, phys, i + 1),
        }
    }
}

/// The physics sub-loop: `k` rounds of one fixed step followed by one post
/// pass.
pub open spec fn stepping_s(objs: Seq<Option<ObjV>>, phys: PhysV, k: nat) -> (Seq<Option<ObjV>>,
    PhysV)
    decreases k,
{
    if k == 0 {
        (objs, phys)
    } else {
        let phys1 = phys_step_s(phys);
        let objs1 = post_pass_from_s(objs, phys1, 0);
        stepping_s(objs1, phys1, (k - 1) as nat)
    }
}

/// The number of whole fixed steps owed by the accumulated time, capped.
pub open spec fn steps_owed_s(acc: u64, timestep: u64, cap: u32) -> nat
    recommends
        timestep > 0,
{
    let owed = (acc / timestep) as nat;
    if owed > cap {
        cap as nat
    } else {
        owed
    }
}

/// One whole tick: delta-time bookkeeping, the update pass, the late
/// pass, the capped physics sub-loop with its post passes, and the input
/// snapshot's end-of-tick reset. The accumulator keeps the sub-timestep
/// remainder; whole steps beyond the cap are dropped.
pub open spec fn world_update_s(w: WorldV, now: u64) -> WorldV
    recommends
        w.physics.timestep_nanos > 0,
{
    let delta = if now >= w.last_frame_nanos {
        (now - w.last_frame_nanos) as u64
    } else {
        0u64
    };
    let dtf = dt_fx_s(delta);
    let objs1 = update_pass_s(w.objects, dtf);
    let lr = late_pass_from_s(objs1, w.physics, 0);
    let acc = sat_add_u64_s(lr.1.accumulator_nanos, delta);
    let k = steps_owed_s(acc, lr.1.timestep_nanos, lr.1.max_steps_per_update);
    let phys2 = PhysV { accumulator_nanos: (acc % lr.1.timestep_nanos) as u64, ..lr.1 };
    let sr = stepping_s(lr.0, phys2, k);
    WorldV {
        objects: sr.0,
        children: w.children,
        active_camera: w.active_camera,
        physics: sr.1,
        input: next_frame_s(w.input),
        last_frame_nanos: now,
        delta_nanos: delta,
    }
}

/// Fixed-timestep law: over one tick with frame delta `d`, the number of
/// physics steps executed equals the whole fixed timesteps owed by the
/// carried-over accumulator plus `d` — capped per frame, with capped
/// backlog dropped — and the accumulator remainder afterwards is always in
/// `[0, timestep)`.
pub proof fn lemma_fixed_timestep(w: WorldV, now: u64)
    requires
        w.physics.timestep_nanos > 0,
        now >= w.last_frame_nanos,
        w.physics.accumulator_nanos + (now - w.last_frame_nanos) <= u64::MAX,
    ensures
        ({
            let d = (now - w.last_frame_nanos) as u64;
            let lr = late_pass_from_s(update_pass_s(w.objects, dt_fx_s(d)), w.physics, 0);
            let owed = ((lr.1.accumulator_nanos + d) / lr.1.timestep_nanos as int) as nat;
            steps_owed_s((lr.1.accumulator_nanos + d) as u64, lr.1.timestep_nanos,
                lr.1.max_steps_per_update) == (if owed > lr.1.max_steps_per_update {
                lr.1.max_steps_per_update as nat
            } else {
                owed
            }) && world_update_s(w, now).physics.accumulator_nanos == (lr.1.accumulator_nanos
                + d) % (lr.1.timestep_nanos as int)
                && world_update_s(w, now).physics.accumulator_nanos < lr.1.timestep_nanos
        }),
{
    let d = (now - w.last_frame_nanos) as u64;
    let lr = late_pass_from_s(update_pass_s(w.objects, dt_fx_s(d)), w.physics, 0);
    lemma_late_pass_bookkeeping(update_pass_s(w.objects, dt_fx_s(d)), w.physics, 0);
    let acc = sat_add_u64_s(lr.1.accumulator_nanos, d);
    assert(acc == lr.1.accumulator_nanos + d);
    let k = steps_owed_s(acc, lr.1.timestep_nanos, lr.1.max_steps_per_update);
    let phys2 = PhysV { accumulator_nanos: (acc % lr.1.timestep_nanos) as u64, ..lr.1 };
    lemma_stepping_bookkeeping(lr.0, phys2, k);
}

/// The late pass changes no physics bookkeeping: timestep, accumulator and
/// cap come through unchanged.
proof fn lemma_late_pass_bookkeeping(objs: Seq<Option<ObjV>>, phys: PhysV, i: int)
    ensures
        late_pass_from_s(objs, phys, i).1.timestep_nanos == phys.timestep_nanos,
        late_pass_from_s(objs, phys, i).1.accumulator_nanos == phys.accumulator_nanos,
        late_pass_from_s(objs, phys, i).1.max_steps_per_update == phys.max_steps_per_update,
    decreases objs.len() - i,
{
    if i < 0 || i >= objs.len() {
    } else {
        match objs[i] {
            Some(o) => {
                let rest = objs.update(i, None);
                let r = obj_late_from_s(rest, o.parent, o.transform, o.components, phys, 0);
                lemma_late_fold_props(rest, o.parent, o.transform, o.components, phys, 0);
                lemma_late_pass_bookkeeping(
                    objs.update(i, Some(ObjV { components: r.0, ..o })),
                    r.1,
                    i + 1,
                );
            },
            None => {
                lemma_late_pass_bookkeeping(objs, phys, i + 1);
            },
        }
    }
}

/// The physics sub-loop changes no bookkeeping either: stepping only
/// advances bodies.
proof fn lemma_stepping_bookkeeping(objs: Seq<Option<ObjV>>, phys: PhysV, k: nat)
    ensures
        stepping_s(objs, phys, k).1.timestep_nanos == phys.timestep_nanos,
        stepping_s(objs, phys, k).1.accumulator_nanos == phys.accumulator_nanos,
        stepping_s(objs, phys, k).1.max_steps_per_update == phys.max_steps_per_update,
    decreases k,
{
    if k == 0 {
    } else {
        let phys1 = phys_step_s(phys);
        lemma_stepping_bookkeeping(post_pass_from_s(objs, phys1, 0), phys1, (k - 1) as nat);
    }
}

/// The post-update events one tick's physics sub-loop appends to a trace
/// log: one per executed step.
pub open spec fn post_events_s(k: nat) -> Seq<u8> {
    Seq::new(k, |i: int| EV_POST_UPDATE)
}

/// The update fold keeps the component count.
proof fn lemma_update_fold_len(comps: Seq<SlotV>, t: Transform, dtf: Fx, m: int)
    ensures
        obj_update_from_s(comps, t, dtf, m).0.len() == comps.len(),
    decreases comps.len() - m,
{
    if m < 0 || m >= comps.len() {
    } else {
        let r = comp_update_s(comps[m].data, t, dtf);
        lemma_update_fold_len(comps.update(m, SlotV { data: r.0, ..comps[m] }), r.1, dtf,
            m + 1);
    }
}

/// The post fold keeps the component count.
proof fn lemma_post_fold_len(rest: Seq<Option<ObjV>>, parent: Option<GameObjectId>,
    comps: Seq<SlotV>, t: Transform, phys: PhysV, m: int)
    ensures
        obj_post_from_s(rest, parent, comps, t, phys, m).0.len() == comps.len(),
    decreases comps.len() - m,
{
    if m < 0 || m >= comps.len() {
    } else {
        let r = comp_post_s(rest, parent, comps[m].data, t, phys);
        lemma_post_fold_len(rest, parent, comps.update(m, SlotV { data: r.0, ..comps[m] }),
            r.1, phys, m + 1);
    }
}

/// The update fold leaves slots before `m` alone and appends the update
/// event to every trace slot from `m` on.
proof fn lemma_update_fold_trace(comps: Seq<SlotV>, t: Transform, dtf: Fx, m: int)
    requires
        0 <= m,
    ensures
        forall|j: int| 0 <= j < m && j < comps.len() ==> #[trigger] obj_update_from_s(
            comps,
            t,
            dtf,
            m,
        ).0[j] == comps[j],
        forall|j: int| m <= j < comps.len() && comps[j].data is Trace
            ==> #[trigger] obj_update_from_s(comps, t, dtf, m).0[j].data == CompDataV::Trace(
            comps[j].data->Trace_0.push(EV_UPDATE),
        ),
    decreases comps.len() - m,
{
    if m >= comps.len() {
    } else {
        let r = comp_update_s(comps[m].data, t, dtf);
        lemma_update_fold_trace(comps.update(m, SlotV { data: r.0, ..comps[m] }), r.1, dtf,
            m + 1);
    }
}

/// The late fold leaves slots before `m` alone and appends the late-update
/// event to every trace slot from `m` on.
proof fn lemma_late_fold_trace(rest: Seq<Option<ObjV>>, parent: Option<GameObjectId>,
    t: Transform, comps: Seq<SlotV>, phys: PhysV, m: int)
    requires
        0 <= m,
    ensures
        forall|j: int| 0 <= j < m && j < comps.len() ==> #[trigger] obj_late_from_s(
            rest,
            parent,
            t,
            comps,
            phys,
            m,
        ).0[j] == comps[j],
        forall|j: int| m <= j < comps.len() && comps[j].data is Trace
            ==> #[trigger] obj_late_from_s(rest, parent, t, comps, phys, m).0[j].data
            == CompDataV::Trace(comps[j].data->Trace_0.push(EV_LATE_UPDATE)),
    decreases comps.len() - m,
{
    if m >= comps.len() {
    } else {
        let r = comp_late_s(rest, parent, t, comps[m].data, phys);
        lemma_late_fold_trace(rest, parent, t, comps.update(
            m,
            SlotV { data: r.0, ..comps[m] },
        ), r.1, m + 1);
    }
}

/// The post fold leaves slots before `m` alone and appends the post-update
/// event to every trace slot from `m` on.
proof fn lemma_post_fold_trace(rest: Seq<Option<ObjV>>, parent: Option<GameObjectId>,
    comps: Seq<SlotV>, t: Transform, phys: PhysV, m: int)
    requires
        0 <= m,
    ensures
        forall|j: int| 0 <= j < m && j < comps.len() ==> #[trigger] obj_post_from_s(
            rest,
            parent,
            comps,
            t,
            phys,
            m,
        ).0[j] == comps[j],
        forall|j: int| m <= j < comps.len() && comps[j].data is Trace
            ==> #[trigger] obj_post_from_s(rest, parent, comps, t, phys, m).0[j].data
            == CompDataV::Trace(comps[j].data->Trace_0.push(EV_POST_UPDATE)),
    decreases comps.len() - m,
{
    if m >= comps.len() {
    } else {
        let r = comp_post_s(rest, parent, comps[m].data, t, phys);
        assert(comps[m].data is Trace ==> r.0 == CompDataV::Trace(
            comps[m].data->Trace_0.push(EV_POST_UPDATE),
        )) by {
            reveal(comp_post_s);
        }
        assert(!(comps[m].data is Trace) ==> r.0 == comps[m].data) by {
            reveal(comp_post_s);
        }
        lemma_post_fold_trace(rest, parent, comps.update(
            m,
            SlotV { data: r.0, ..comps[m] },
        ), r.1, phys, m + 1);
    }
}

/// The update pass appends the update event to every trace slot of every
/// live entity.
proof fn lemma_update_pass_trace(objs: Seq<Option<ObjV>>, dtf: Fx)
    ensures
        update_pass_s(objs, dtf).len() == objs.len(),
        forall|i: int| 0 <= i < objs.len() && objs[i] is None ==> #[trigger] update_pass_s(
            objs,
            dtf,
        )[i] is None,
        forall|i: int, j: int|
            0 <= i < objs.len() && objs[i] is Some && 0 <= j
                < objs[i]->Some_0.components.len()
                && (#[trigger] objs[i]->Some_0.components[j].data) is Trace
                ==> (#[trigger] update_pass_s(objs, dtf)[i]) is Some && update_pass_s(
                objs,
                dtf,
            )[i]->Some_0.components.len() == objs[i]->Some_0.components.len()
                && update_pass_s(objs, dtf)[i]->Some_0.components[j].data == CompDataV::Trace(
                objs[i]->Some_0.components[j].data->Trace_0.push(EV_UPDATE),
            ),
{
    assert forall|i: int, j: int|
        0 <= i < objs.len() && objs[i] is Some && 0 <= j < objs[i]->Some_0.components.len()
            && (#[trigger] objs[i]->Some_0.components[j].data) is Trace implies (
    #[trigger] update_pass_s(
        objs,
        dtf,
    )[i]) is Some && update_pass_s(objs, dtf)[i]->Some_0.components.len()
        == objs[i]->Some_0.components.len() && update_pass_s(
        objs,
        dtf,
    )[i]->Some_0.components[j].data == CompDataV::Trace(
        objs[i]->Some_0.components[j].data->Trace_0.push(EV_UPDATE),
    ) by {
        let o = objs[i]->Some_0;
        lemma_update_fold_trace(o.components, o.transform, dtf, 0);
        lemma_update_fold_len(o.components, o.transform, dtf, 0);
    }
}

/// The late pass leaves slots before `m` alone and appends the late-update
/// event to every trace slot of every live entity from `m` on.
proof fn lemma_late_pass_trace(objs: Seq<Option<ObjV>>, phys: PhysV, m: int)
    requires
        0 <= m,
    ensures
        late_pass_from_s(objs, phys, m).0.len() == objs.len(),
        forall|i: int| 0 <= i < m && i < objs.len() ==> #[trigger] late_pass_from_s(
            objs,
            phys,
            m,
        ).0[i] == objs[i],
        forall|i: int| m <= i < objs.len() && objs[i] is None ==> #[trigger] late_pass_from_s(
            objs,
            phys,
            m,
        ).0[i] is None,
        forall|i: int, j: int|
            m <= i < objs.len() && objs[i] is Some && 0 <= j
                < objs[i]->Some_0.components.len()
                && (#[trigger] objs[i]->Some_0.components[j].data) is Trace
                ==> (#[trigger] late_pass_from_s(objs, phys, m).0[i]) is Some
                && late_pass_from_s(objs, phys, m).0[i]->Some_0.components.len()
                == objs[i]->Some_0.components.len() && late_pass_from_s(
                objs,
                phys,
                m,
            ).0[i]->Some_0.components[j].data == CompDataV::Trace(
                objs[i]->Some_0.components[j].data->Trace_0.push(EV_LATE_UPDATE),
            ),
    decreases objs.len() - m,
{
    if m >= objs.len() {
    } else {
        match objs[m] {
            Some(o) => {
                let rest = objs.update(m, None);
                let r = obj_late_from_s(rest, o.parent, o.transform, o.components, phys, 0);
                lemma_late_fold_trace(rest, o.parent, o.transform, o.components, phys, 0);
                lemma_late_fold_props(rest, o.parent, o.transform, o.components, phys, 0);
                let objs2 = objs.update(m, Some(ObjV { components: r.0, ..o }));
                lemma_late_pass_trace(objs2, r.1, m + 1);
                assert forall|i: int, j: int|
                    m <= i < objs.len() && objs[i] is Some && 0 <= j
                        < objs[i]->Some_0.components.len()
                        && (#[trigger] objs[i]->Some_0.components[j].data) is Trace implies (
                #[trigger] late_pass_from_s(objs, phys, m).0[i]) is Some && late_pass_from_s(
                    objs,
                    phys,
                    m,
                ).0[i]->Some_0.components.len() == objs[i]->Some_0.components.len()
                    && late_pass_from_s(objs, phys, m).0[i]->Some_0.components[j].data
                    == CompDataV::Trace(
                    objs[i]->Some_0.components[j].data->Trace_0.push(EV_LATE_UPDATE),
                ) by {
                    if i == m {
                        assert(late_pass_from_s(objs, phys, m).0[i] == objs2[m]);
                    } else {
                        assert(objs2[i] == objs[i]);
                        assert(objs2[i]->Some_0.components[j].data
                            == objs[i]->Some_0.components[j].data);
                        assert(late_pass_from_s(objs, phys, m).0[i] == late_pass_from_s(
                            objs2,
                            r.1,
                            m + 1,
                        ).0[i]);
                    }
                }
            },
            None => {
                lemma_late_pass_trace(objs, phys, m + 1);
            },
        }
    }
}

/// The post pass leaves slots before `m` alone and appends the post-update
/// event to every trace slot of every live entity from `m` on.
proof fn lemma_post_pass_trace(objs: Seq<Option<ObjV>>, phys: PhysV, m: int)
    requires
        0 <= m,
    ensures
        post_pass_from_s(objs, phys, m).len() == objs.len(),
        forall|i: int| 0 <= i < m && i < objs.len() ==> #[trigger] post_pass_from_s(
            objs,
            phys,
            m,
        )[i] == objs[i],
        forall|i: int| m <= i < objs.len() && objs[i] is None ==> #[trigger] post_pass_from_s(
            objs,
            phys,
            m,
        )[i] is None,
        forall|i: int, j: int|
            m <= i < objs.len() && objs[i] is Some && 0 <= j
                < objs[i]->Some_0.components.len()
                && (#[trigger] objs[i]->Some_0.components[j].data) is Trace
                ==> (#[trigger] post_pass_from_s(objs, phys, m)[i]) is Some
                && post_pass_from_s(objs, phys, m)[i]->Some_0.components.len()
                == objs[i]->Some_0.components.len() && post_pass_from_s(
                objs,
                phys,
                m,
            )[i]->Some_0.components[j].data == CompDataV::Trace(
                objs[i]->Some_0.components[j].data->Trace_0.push(EV_POST_UPDATE),
            ),
    decreases objs.len() - m,
{
    if m >= objs.len() {
    } else {
        match objs[m] {
            Some(o) => {
                let rest = objs.update(m, None);
                let r = obj_post_from_s(rest, o.parent, o.components, o.transform, phys, 0);
                lemma_post_fold_trace(rest, o.parent, o.components, o.transform, phys, 0);
                lemma_post_fold_len(rest, o.parent, o.components, o.transform, phys, 0);
                let objs2 = objs.update(
                    m,
                    Some(ObjV { components: r.0, transform: r.1, ..o }),
                );
                lemma_post_pass_trace(objs2, phys, m + 1);
                assert forall|i: int, j: int|
                    m <= i < objs.len() && objs[i] is Some && 0 <= j
                        < objs[i]->Some_0.components.len()
                        && (#[trigger] objs[i]->Some_0.components[j].data) is Trace implies (
                #[trigger] post_pass_from_s(objs, phys, m)[i]) is Some && post_pass_from_s(
                    objs,
                    phys,
                    m,
                )[i]->Some_0.components.len() == objs[i]->Some_0.components.len()
                    && post_pass_from_s(objs, phys, m)[i]->Some_0.components[j].data
                    == CompDataV::Trace(
                    objs[i]->Some_0.components[j].data->Trace_0.push(EV_POST_UPDATE),
                ) by {
                    if i == m {
                        assert(post_pass_from_s(objs, phys, m)[i] == objs2[m]);
                    } else {
                        assert(objs2[i] == objs[i]);
                        assert(objs2[i]->Some_0.components[j].data
                            == objs[i]->Some_0.components[j].data);
                        assert(post_pass_from_s(objs, phys, m)[i] == post_pass_from_s(
                            objs2,
                            phys,
                            m + 1,
                        )[i]);
                    }
                }
            },
            None => {
                lemma_post_pass_trace(objs, phys, m + 1);
            },
        }
    }
}

/// The physics sub-loop appends one post-update event per executed step
/// to every trace slot of every live entity.
proof fn lemma_stepping_trace(objs: Seq<Option<ObjV>>, phys: PhysV, k: nat)
    ensures
        stepping_s(objs, phys, k).0.len() == objs.len(),
        forall|i: int| 0 <= i < objs.len() && objs[i] is None ==> #[trigger] stepping_s(
            objs,
            phys,
            k,
        ).0[i] is None,
        forall|i: int, j: int|
            0 <= i < objs.len() && objs[i] is Some && 0 <= j
                < objs[i]->Some_0.components.len()
                && (#[trigger] objs[i]->Some_0.components[j].data) is Trace ==> (
            #[trigger] stepping_s(objs, phys, k).0[i]) is Some && stepping_s(
                objs,
                phys,
                k,
            ).0[i]->Some_0.components.len() == objs[i]->Some_0.components.len()
                && stepping_s(objs, phys, k).0[i]->Some_0.components[j].data
                == CompDataV::Trace(
                objs[i]->Some_0.components[j].data->Trace_0 + post_events_s(k),
            ),
    decreases k,
{
    if k == 0 {
        assert forall|i: int, j: int|
            0 <= i < objs.len() && objs[i] is Some && 0 <= j
                < objs[i]->Some_0.components.len()
                && (#[trigger] objs[i]->Some_0.components[j].data) is Trace implies (
        #[trigger] stepping_s(objs, phys, k).0[i]) is Some && stepping_s(
            objs,
            phys,
            k,
        ).0[i]->Some_0.components.len() == objs[i]->Some_0.components.len() && stepping_s(
            objs,
            phys,
            k,
        ).0[i]->Some_0.components[j].data == CompDataV::Trace(
            objs[i]->Some_0.components[j].data->Trace_0 + post_events_s(k),
        ) by {
            let l = objs[i]->Some_0.components[j].data->Trace_0;
            assert(l + post_events_s(0) =~= l);
        }
    } else {
        let phys1 = phys_step_s(phys);
        let objs1 = post_pass_from_s(objs, phys1, 0);
        lemma_post_pass_trace(objs, phys1, 0);
        lemma_stepping_trace(objs1, phys1, (k - 1) as nat);
        assert forall|i: int, j: int|
            0 <= i < objs.len() && objs[i] is Some && 0 <= j
                < objs[i]->Some_0.components.len()
                && (#[trigger] objs[i]->Some_0.components[j].data) is Trace implies (
        #[trigger] stepping_s(objs, phys, k).0[i]) is Some && stepping_s(
            objs,
            phys,
            k,
        ).0[i]->Some_0.components.len() == objs[i]->Some_0.components.len() && stepping_s(
            objs,
            phys,
            k,
        ).0[i]->Some_0.components[j].data == CompDataV::Trace(
            objs[i]->Some_0.components[j].data->Trace_0 + post_events_s(k),
        ) by {
            let l = objs[i]->Some_0.components[j].data->Trace_0;
            assert(objs1[i] is Some);
            assert(objs1[i]->Some_0.components[j].data == CompDataV::Trace(l.push(
                EV_POST_UPDATE,
            )));
            assert(stepping_s(objs, phys, k).0[i] == stepping_s(objs1, phys1, (k - 1) as nat,
            ).0[i]);
            assert(l.push(EV_POST_UPDATE) + post_events_s((k - 1) as nat) =~= l
                + post_events_s(k));
        }
        assert forall|i: int| 0 <= i < objs.len() && objs[i] is None implies #[trigger]
            stepping_s(objs, phys, k).0[i] is None by {
            assert(objs1[i] is None);
        }
    }
}

/// Lifecycle-ordering law: across one tick, a component that records its
/// lifecycle calls observes exactly one update, then one late-update,
/// then one post-update per executed physics step — the step count of
/// that tick — and nothing else.
pub proof fn lemma_lifecycle_order(w: WorldV, now: u64, i: int, j: int)
    requires
        w.physics.timestep_nanos > 0,
        0 <= i < w.objects.len(),
        w.objects[i] is Some,
        0 <= j < w.objects[i]->Some_0.components.len(),
        w.objects[i]->Some_0.components[j].data is Trace,
    ensures
        ({
            let l = w.objects[i]->Some_0.components[j].data->Trace_0;
            let d = if now >= w.last_frame_nanos {
                (now - w.last_frame_nanos) as u64
            } else {
                0u64
            };
            let lr = late_pass_from_s(update_pass_s(w.objects, dt_fx_s(d)), w.physics, 0);
            let k = steps_owed_s(
                sat_add_u64_s(lr.1.accumulator_nanos, d),
                lr.1.timestep_nanos,
                lr.1.max_steps_per_update,
            );
            let wu = world_update_s(w, now);
            wu.objects.len() == w.objects.len() && wu.objects[i] is Some
                && wu.objects[i]->Some_0.components.len()
                == w.objects[i]->Some_0.components.len()
                && wu.objects[i]->Some_0.components[j].data == CompDataV::Trace(
                l.push(EV_UPDATE).push(EV_LATE_UPDATE) + post_events_s(k),
            )
        }),
{
    let l = w.objects[i]->Some_0.components[j].data->Trace_0;
    let d = if now >= w.last_frame_nanos {
        (now - w.last_frame_nanos) as u64
    } else {
        0u64
    };
    let dtf = dt_fx_s(d);
    let objs1 = update_pass_s(w.objects, dtf);
    lemma_update_pass_trace(w.objects, dtf);
    assert(objs1[i]->Some_0.components[j].data == CompDataV::Trace(l.push(EV_UPDATE)));
    let lr = late_pass_from_s(objs1, w.physics, 0);
    lemma_late_pass_trace(objs1, w.physics, 0);
    assert(lr.0[i]->Some_0.components[j].data == CompDataV::Trace(l.push(EV_UPDATE).push(
        EV_LATE_UPDATE,
    )));
    let acc = sat_add_u64_s(lr.1.accumulator_nanos, d);
    let k = steps_owed_s(acc, lr.1.timestep_nanos, lr.1.max_steps_per_update);
    let phys2 = PhysV { accumulator_nanos: (acc % lr.1.timestep_nanos) as u64, ..lr.1 };
    lemma_stepping_trace(lr.0, phys2, k);
}

/// Run the update pass on one extracted entity.
#[verifier::rlimit(100)]
fn run_obj_update(obj: &mut GameObject, dtf: Fx)
    ensures
        final(obj)@ == obj_after_update_s(old(obj)@, dtf),
{
    let n = obj.components.len();
    let mut j: usize = 0;
    while j < n
        invariant
            n == obj.components@.len(),
            j <= n,
            obj.id == old(obj).id,
            obj.name == old(obj).name,
            obj.children == old(obj).children,
            obj.parent == old(obj).parent,
            obj.drawable == old(obj).drawable,
            obj_update_from_s(old(obj)@.components, old(obj)@.transform, dtf, 0)
                == obj_update_from_s(obj@.components, obj.transform, dtf, j as int),
        decreases n - j,
    {
        let ghost comps0 = obj@.components;
        let ghost t0 = obj.transform;
        let mut slot = obj.components.remove(j);
        let data = slot.data;
        match data {
            ComponentData::Gravity(g0) => {
                let mut g = g0;
                gravity_update(&mut g, &mut obj.transform, dtf);
                slot.data = ComponentData::Gravity(g);
            },
            ComponentData::Trace(t0) => {
                let mut t = t0;
                t.log.push(EV_UPDATE);
                slot.data = ComponentData::Trace(t);
            },
            ComponentData::Camera(c0) => {
                slot.data = ComponentData::Camera(c0);
            },
            ComponentData::RigidBody(r0) => {
                slot.data = ComponentData::RigidBody(r0);
            },
        }
        obj.components.insert(j, slot);
        proof {
            assert((slot@.data, obj.transform) == comp_update_s(comps0[j as int].data, t0,
                dtf));
            assert(obj@.components =~~= comps0.update(
                j as int,
                SlotV { data: slot@.data, ..comps0[j as int] },
            ));
            assert(obj_update_from_s(comps0, t0, dtf, j as int) == obj_update_from_s(
                obj@.components,
                obj.transform,
                dtf,
                j as int + 1,
            ));
        }
        j = j + 1;
    }
    proof {
        assert(obj@ =~~= obj_after_update_s(old(obj)@, dtf));
    }
}

/// Run the late pass on one extracted entity against the rest of the
/// table and the simulation.
#[verifier::rlimit(100)]
fn run_obj_late(rest: &Vec<Option<GameObject>>, obj: &mut GameObject,
    phys: &mut crate::physics::PhysicsSim)
    requires
        objs_wf(objs_v(rest@)),
        old(obj).transform.wf(),
    ensures
        ({
            let r = obj_late_from_s(
                objs_v(rest@),
                old(obj)@.parent,
                old(obj)@.transform,
                old(obj)@.components,
                old(phys)@,
                0,
            );
            final(obj)@ == (ObjV { components: r.0, ..old(obj)@ }) && final(phys)@ == r.1
        }),
{
    let n = obj.components.len();
    let mut j: usize = 0;
    while j < n
        invariant
            n == obj.components@.len(),
            j <= n,
            objs_wf(objs_v(rest@)),
            obj.transform.wf(),
            obj.id == old(obj).id,
            obj.name == old(obj).name,
            obj.children == old(obj).children,
            obj.parent == old(obj).parent,
            obj.drawable == old(obj).drawable,
            obj.transform == old(obj).transform,
            obj_late_from_s(objs_v(rest@), old(obj)@.parent, old(obj)@.transform,
                old(obj)@.components, old(phys)@, 0) == obj_late_from_s(objs_v(rest@),
                old(obj)@.parent, old(obj)@.transform, obj@.components, phys@, j as int),
        decreases n - j,
    {
        let ghost comps0 = obj@.components;
        let ghost phys0 = phys@;
        let mut slot = obj.components.remove(j);
        let data = slot.data;
        match data {
            ComponentData::Trace(t0) => {
                let mut t = t0;
                t.log.push(EV_LATE_UPDATE);
                slot.data = ComponentData::Trace(t);
            },
            ComponentData::RigidBody(r0) => {
                match phys.get_body(r0.body) {
                    Some(b) => {
                        let fuel = rest.len();
                        let chain = crate::spatial::global_mat_of(rest, obj.parent, fuel);
                        let full = chain.mul(&obj.transform.full_matrix());
                        let gp = full.translation_of();
                        let gr = crate::spatial::global_rot_of(rest, obj.parent, fuel).mul(
                            &obj.transform.local_rotation(),
                        );
                        let nb = Body { translation: gp, rotation: gr, ..b };
                        phys.set_body(r0.body, nb);
                    },
                    None => {},
                }
                slot.data = ComponentData::RigidBody(r0);
            },
            ComponentData::Camera(c0) => {
                slot.data = ComponentData::Camera(c0);
            },
            ComponentData::Gravity(g0) => {
                slot.data = ComponentData::Gravity(g0);
            },
        }
        obj.components.insert(j, slot);
        proof {
            assert((slot@.data, phys@) == comp_late_s(objs_v(rest@), old(obj)@.parent,
                old(obj)@.transform, comps0[j as int].data, phys0));
            assert(obj@.components =~~= comps0.update(
                j as int,
                SlotV { data: slot@.data, ..comps0[j as int] },
            ));
            assert(obj_late_from_s(objs_v(rest@), old(obj)@.parent, old(obj)@.transform,
                comps0, phys0, j as int) == obj_late_from_s(objs_v(rest@), old(obj)@.parent,
                old(obj)@.transform, obj@.components, phys@, j as int + 1));
        }
        j = j + 1;
    }
    proof {
        assert(obj@ =~~= (ObjV {
            components: obj_late_from_s(objs_v(rest@), old(obj)@.parent, old(obj)@.transform,
                old(obj)@.components, old(phys)@, 0).0,
            ..old(obj)@
        }));
    }
}

/// Run the post pass on one extracted entity against the rest of the
/// table and the stepped simulation.
#[verifier::rlimit(100)]
fn run_obj_post(rest: &Vec<Option<GameObject>>, obj: &mut GameObject,
    phys: &crate::physics::PhysicsSim)
    requires
        objs_wf(objs_v(rest@)),
    ensures
        ({
            let r = obj_post_from_s(
                objs_v(rest@),
                old(obj)@.parent,
                old(obj)@.components,
                old(obj)@.transform,
                phys@,
                0,
            );
            final(obj)@ == (ObjV { components: r.0, transform: r.1, ..old(obj)@ })
        }),
{
    let n = obj.components.len();
    let mut j: usize = 0;
    while j < n
        invariant
            n == obj.components@.len(),
            j <= n,
            objs_wf(objs_v(rest@)),
            obj.id == old(obj).id,
            obj.name == old(obj).name,
            obj.children == old(obj).children,
            obj.parent == old(obj).parent,
            obj.drawable == old(obj).drawable,
            obj_post_from_s(objs_v(rest@), old(obj)@.parent, old(obj)@.components,
                old(obj)@.transform, phys@, 0) == obj_post_from_s(objs_v(rest@),
                old(obj)@.parent, obj@.components, obj.transform, phys@, j as int),
        decreases n - j,
    {
        let ghost comps0 = obj@.components;
        let ghost t0 = obj.transform;
        let mut slot = obj.components.remove(j);
        let data = slot.data;
        match data {
            ComponentData::Trace(tr0) => {
                let mut t = tr0;
                t.log.push(EV_POST_UPDATE);
                slot.data = ComponentData::Trace(t);
            },
            ComponentData::RigidBody(r0) => {
                match phys.get_body(r0.body) {
                    Some(b) => {
                        if b.dynamic {
                            apply_body_pose(rest, obj.parent, &mut obj.transform, b);
                        }
                    },
                    None => {},
                }
                slot.data = ComponentData::RigidBody(r0);
            },
            ComponentData::Camera(c0) => {
                slot.data = ComponentData::Camera(c0);
            },
            ComponentData::Gravity(g0) => {
                slot.data = ComponentData::Gravity(g0);
            },
        }
        obj.components.insert(j, slot);
        proof {
            assert((slot@.data, obj.transform) == comp_post_s(objs_v(rest@), old(obj)@.parent,
                comps0[j as int].data, t0, phys@)) by {
                reveal(comp_post_s);
            }
            assert(obj@.components =~~= comps0.update(
                j as int,
                SlotV { data: slot@.data, ..comps0[j as int] },
            ));
            assert(obj_post_from_s(objs_v(rest@), old(obj)@.parent, comps0, t0, phys@,
                j as int) == obj_post_from_s(objs_v(rest@), old(obj)@.parent, obj@.components,
                obj.transform, phys@, j as int + 1));
        }
        j = j + 1;
    }
    proof {
        assert(obj@ =~~= (ObjV {
            components: obj_post_from_s(objs_v(rest@), old(obj)@.parent, old(obj)@.components,
                old(obj)@.transform, phys@, 0).0,
            transform: obj_post_from_s(objs_v(rest@), old(obj)@.parent, old(obj)@.components,
                old(obj)@.transform, phys@, 0).1,
            ..old(obj)@
        }));
    }
}

/// The update fold keeps each slot's owner, the component count, and
/// transform well-formedness.
#[verifier::rlimit(60)]
proof fn lemma_update_fold_props(comps: Seq<SlotV>, t: Transform, dtf: Fx, j: int)
    requires
        t.wf(),
    ensures
        obj_update_from_s(comps, t, dtf, j).0.len() == comps.len(),
        forall|k: int| 0 <= k < comps.len() ==> #[trigger] obj_update_from_s(
            comps,
            t,
            dtf,
            j,
        ).0[k].owner == comps[k].owner,
        obj_update_from_s(comps, t, dtf, j).1.wf(),
    decreases comps.len() - j,
{
    if j < 0 || j >= comps.len() {
    } else {
        let r = comp_update_s(comps[j].data, t, dtf);
        assert(r.1.wf()) by {
            match comps[j].data {
                CompDataV::Gravity(g) => {
                    crate::transform::lemma_with_caches_wf(
                        Transform {
                            pos: crate::algebra::vec3_add_s(
                                t.pos,
                                Vec3 { x: 0, y: gravity_update_s(g, t, dtf).0.velocity, z: 0 },
                            ),
                            ..t
                        },
                    );
                },
                CompDataV::Trace(_) => {},
                CompDataV::Camera(_) => {},
                CompDataV::RigidBody(_) => {},
            }
        }
        lemma_update_fold_props(comps.update(j, SlotV { data: r.0, ..comps[j] }), r.1, dtf,
            j + 1);
    }
}

/// The late fold keeps each slot's owner and the component count.
proof fn lemma_late_fold_props(rest: Seq<Option<ObjV>>, parent: Option<GameObjectId>,
    t: Transform, comps: Seq<SlotV>, phys: PhysV, j: int)
    ensures
        obj_late_from_s(rest, parent, t, comps, phys, j).0.len() == comps.len(),
        forall|k: int| 0 <= k < comps.len() ==> #[trigger] obj_late_from_s(
            rest,
            parent,
            t,
            comps,
            phys,
            j,
        ).0[k].owner == comps[k].owner,
        obj_late_from_s(rest, parent, t, comps, phys, j).1.timestep_nanos
            == phys.timestep_nanos,
        obj_late_from_s(rest, parent, t, comps, phys, j).1.accumulator_nanos
            == phys.accumulator_nanos,
        obj_late_from_s(rest, parent, t, comps, phys, j).1.max_steps_per_update
            == phys.max_steps_per_update,
    decreases comps.len() - j,
{
    if j < 0 || j >= comps.len() {
    } else {
        let r = comp_late_s(rest, parent, t, comps[j].data, phys);
        lemma_late_fold_props(rest, parent, t, comps.update(
            j,
            SlotV { data: r.0, ..comps[j] },
        ), r.1, j + 1);
    }
}

/// The post fold keeps each slot's owner, the component count, and
/// transform well-formedness.
proof fn lemma_post_fold_props(rest: Seq<Option<ObjV>>, parent: Option<GameObjectId>,
    comps: Seq<SlotV>, t: Transform, phys: PhysV, j: int)
    requires
        t.wf(),
    ensures
        obj_post_from_s(rest, parent, comps, t, phys, j).0.len() == comps.len(),
        forall|k: int| 0 <= k < comps.len() ==> #[trigger] obj_post_from_s(
            rest,
            parent,
            comps,
            t,
            phys,
            j,
        ).0[k].owner == comps[k].owner,
        obj_post_from_s(rest, parent, comps, t, phys, j).1.wf(),
    decreases comps.len() - j,
{
    if j < 0 || j >= comps.len() {
    } else {
        let r = comp_post_s(rest, parent, comps[j].data, t, phys);
        assert(r.1.wf()) by {
            reveal(comp_post_s);
            match comps[j].data {
                CompDataV::RigidBody(rb) => {
                    if rb.body < phys.bodies.len() && phys.bodies[rb.body as int] is Some
                        && phys.bodies[rb.body as int]->Some_0.dynamic {
                        let b = phys.bodies[rb.body as int]->Some_0;
                        reveal(body_pose_transform_s);
                        let fuel = chain_fuel_s(rest);
                        let lp = inv_chain_point_s(rest, parent, b.translation, fuel);
                        let t1 = with_caches_s(Transform { pos: lp, ..t });
                        let lr = quat_mul_s(
                            quat_conj_s(global_rot_s(rest, parent, fuel)),
                            b.rotation,
                        );
                        crate::transform::lemma_with_caches_wf(Transform { rot: lr, ..t1 });
                    }
                },
                CompDataV::Trace(_) => {},
                CompDataV::Camera(_) => {},
                CompDataV::Gravity(_) => {},
            }
        }
        lemma_post_fold_props(rest, parent, comps.update(j, SlotV { data: r.0, ..comps[j] }),
            r.1, phys, j + 1);
    }
}

impl World {
    /// Run the update pass over every component of every entity, in
    /// identifier order.
    #[verifier::rlimit(100)]
    fn run_update_pass(&mut self, dtf: Fx)
        requires
            old(self).wf(),
        ensures
            final(self).wf(),
            final(self)@.objects == update_pass_s(old(self)@.objects, dtf),
            final(self)@.children == old(self)@.children,
            final(self)@.active_camera == old(self)@.active_camera,
            final(self)@.physics == old(self)@.physics,
            final(self)@.input == old(self)@.input,
            final(self)@.last_frame_nanos == old(self)@.last_frame_nanos,
            final(self)@.delta_nanos == old(self)@.delta_nanos,
            final(self).assets == old(self).assets,
    {
        let n = self.objects.len();
        let mut i: usize = 0;
        while i < n
            invariant
                n == self.objects@.len(),
                n == old(self)@.objects.len(),
                i <= n,
                self.wf(),
                self@.children == old(self)@.children,
                self@.active_camera == old(self)@.active_camera,
                self@.physics == old(self)@.physics,
                self@.input == old(self)@.input,
                self@.last_frame_nanos == old(self)@.last_frame_nanos,
                self@.delta_nanos == old(self)@.delta_nanos,
                self.assets == old(self).assets,
                forall|k: int| 0 <= k < i ==> #[trigger] self@.objects[k] == update_pass_s(
                    old(self)@.objects,
                    dtf,
                )[k],
                forall|k: int| i <= k < n ==> #[trigger] self@.objects[k]
                    == old(self)@.objects[k],
            decreases n - i,
        {
            let ghost objs0 = self@.objects;
            let slot = self.objects.remove(i);
            self.objects.insert(i, None);
            match slot {
                Some(mut obj) => {
                    proof {
                        assert(objs0[i as int] == old(self)@.objects[i as int]);
                        assert(objs0[i as int] matches Some(o) && o == obj@);
                        lemma_update_fold_props(obj@.components, obj@.transform, dtf, 0);
                    }
                    run_obj_update(&mut obj, dtf);
                    self.objects[i] = Some(obj);
                    proof {
                        assert(self@.objects =~= objs0.update(
                            i as int,
                            Some(obj_after_update_s(objs0[i as int]->Some_0, dtf)),
                        ));
                    }
                },
                None => {
                    proof {
                        assert(self@.objects =~= objs0);
                    }
                },
            }
            proof {
                assert forall|k: int| 0 <= k < n implies match #[trigger] self@.objects[k] {
                    Some(o) => o.id.0 == k && o.transform.wf() && (forall|jj: int|
                        0 <= jj < o.components.len() ==> (#[trigger] o.components[jj]).owner.0
                            == k),
                    None => true,
                } by {
                    if k != i as int {
                        assert(self@.objects[k] == objs0[k]);
                    }
                }
                assert(objs_wf(self@.objects));
                assert(update_pass_s(old(self)@.objects, dtf)[i as int] == (match old(
                    self,
                )@.objects[i as int] {
                    Some(o) => Some(obj_after_update_s(o, dtf)),
                    None => None,
                }));
                assert(self@.objects[i as int] == update_pass_s(old(self)@.objects, dtf)[
                    i as int]);
            }
            i = i + 1;
        }
        proof {
            assert(self@.objects =~= update_pass_s(old(self)@.objects, dtf));
        }
    }

    /// Run the late pass over every component of every entity, in
    /// identifier order.
    #[verifier::rlimit(100)]
    fn run_late_pass(&mut self)
        requires
            old(self).wf(),
        ensures
            final(self).wf(),
            (final(self)@.objects, final(self)@.physics) == late_pass_from_s(
                old(self)@.objects,
                old(self)@.physics,
                0,
            ),
            final(self)@.children == old(self)@.children,
            final(self)@.active_camera == old(self)@.active_camera,
            final(self)@.input == old(self)@.input,
            final(self)@.last_frame_nanos == old(self)@.last_frame_nanos,
            final(self)@.delta_nanos == old(self)@.delta_nanos,
            final(self).assets == old(self).assets,
    {
        let n = self.objects.len();
        let mut i: usize = 0;
        while i < n
            invariant
                n == self.objects@.len(),
                i <= n,
                self.wf(),
                self@.children == old(self)@.children,
                self@.active_camera == old(self)@.active_camera,
                self@.input == old(self)@.input,
                self@.last_frame_nanos == old(self)@.last_frame_nanos,
                self@.delta_nanos == old(self)@.delta_nanos,
                self.assets == old(self).assets,
                late_pass_from_s(old(self)@.objects, old(self)@.physics, 0) == late_pass_from_s(
                    self@.objects,
                    self@.physics,
                    i as int,
                ),
            decreases n - i,
        {
            let ghost objs0 = self@.objects;
            let ghost phys0 = self@.physics;
            let slot = self.objects.remove(i);
            self.objects.insert(i, None);
            match slot {
                Some(mut obj) => {
                    proof {
                        assert(objs0[i as int] matches Some(o) && o == obj@);
                        assert(self@.objects =~= objs0.update(i as int, None));
                        crate::world::lemma_wf_set_none(objs0, i as int);
                        lemma_late_fold_props(self@.objects, obj@.parent, obj@.transform,
                            obj@.components, phys0, 0);
                    }
                    let ghost rest = self@.objects;
                    run_obj_late(&self.objects, &mut obj, &mut self.physics);
                    self.objects[i] = Some(obj);
                    proof {
                        let r = obj_late_from_s(rest, obj@.parent, obj@.transform,
                            objs0[i as int]->Some_0.components, phys0, 0);
                        let o2 = ObjV { components: r.0, ..objs0[i as int]->Some_0 };
                        assert(self@.objects =~= objs0.update(i as int, Some(o2)));
                        crate::world::lemma_wf_update(objs0, i as int, o2);
                    }
                },
                None => {
                    proof {
                        assert(self@.objects =~= objs0);
                    }
                },
            }
            i = i + 1;
        }
    }

    /// Run the post pass over every component of every entity, in
    /// identifier order, against the stepped simulation.
    #[verifier::rlimit(100)]
    fn run_post_pass(&mut self)
        requires
            old(self).wf(),
        ensures
            final(self).wf(),
            final(self)@.objects == post_pass_from_s(
                old(self)@.objects,
                old(self)@.physics,
                0,
            ),
            final(self)@.children == old(self)@.children,
            final(self)@.active_camera == old(self)@.active_camera,
            final(self)@.physics == old(self)@.physics,
            final(self)@.input == old(self)@.input,
            final(self)@.last_frame_nanos == old(self)@.last_frame_nanos,
            final(self)@.delta_nanos == old(self)@.delta_nanos,
            final(self).assets == old(self).assets,
    {
        let n = self.objects.len();
        let mut i: usize = 0;
        while i < n
            invariant
                n == self.objects@.len(),
                i <= n,
                self.wf(),
                self@.children == old(self)@.children,
                self@.active_camera == old(self)@.active_camera,
                self@.physics == old(self)@.physics,
                self@.input == old(self)@.input,
                self@.last_frame_nanos == old(self)@.last_frame_nanos,
                self@.delta_nanos == old(self)@.delta_nanos,
                self.assets == old(self).assets,
                post_pass_from_s(old(self)@.objects, old(self)@.physics, 0) == post_pass_from_s(
                    self@.objects,
                    self@.physics,
                    i as int,
                ),
            decreases n - i,
        {
            let ghost objs0 = self@.objects;
            let slot = self.objects.remove(i);
            self.objects.insert(i, None);
            match slot {
                Some(mut obj) => {
                    proof {
                        assert(objs0[i as int] matches Some(o) && o == obj@);
                        assert(self@.objects =~= objs0.update(i as int, None));
                        crate::world::lemma_wf_set_none(objs0, i as int);
                        lemma_post_fold_props(self@.objects, obj@.parent, obj@.components,
                            obj@.transform, self@.physics, 0);
                    }
                    let ghost rest = self@.objects;
                    run_obj_post(&self.objects, &mut obj, &self.physics);
                    self.objects[i] = Some(obj);
                    proof {
                        let r = obj_post_from_s(rest, obj@.parent,
                            objs0[i as int]->Some_0.components,
                            objs0[i as int]->Some_0.transform, self@.physics, 0);
                        let o2 = ObjV {
                            components: r.0,
                            transform: r.1,
                            ..objs0[i as int]->Some_0
                        };
                        assert(self@.objects =~= objs0.update(i as int, Some(o2)));
                        crate::world::lemma_wf_update(objs0, i as int, o2);
                    }
                },
                None => {
                    proof {
                        assert(self@.objects =~= objs0);
                    }
                },
            }
            i = i + 1;
        }
    }

    /// One frame tick: delta-time bookkeeping, the update pass, the late
    /// pass, then while a whole fixed timestep is owed and the per-frame
    /// cap not reached, one fixed physics step followed by a post pass;
    /// finally the input snapshot's per-frame state is cleared. Physics
    /// always advances in equal-sized steps — zero, one or several per
    /// tick — and the accumulator remainder stays below one timestep.
    #[verifier::rlimit(100)]
    pub fn update(&mut self, now_nanos: u64)
        requires
            old(self).wf(),
        ensures
            final(self).wf(),
            final(self)@ == world_update_s(old(self)@, now_nanos),
            final(self).assets == old(self).assets,
    {
        let delta: u64 = if now_nanos >= self.last_frame_nanos {
            now_nanos - self.last_frame_nanos
        } else {
            0
        };
        self.delta_nanos = delta;
        self.last_frame_nanos = now_nanos;
        let dtf = dt_fx(delta);
        self.run_update_pass(dtf);
        self.run_late_pass();
        let wide: u128 = self.physics.accumulator_nanos as u128 + delta as u128;
        let acc: u64 = if wide > u64::MAX as u128 {
            u64::MAX
        } else {
            wide as u64
        };
        let ts = self.physics.timestep_nanos;
        let owed: u64 = acc / ts;
        let cap: u32 = self.physics.max_steps_per_update;
        let k: u64 = if owed > cap as u64 {
            cap as u64
        } else {
            owed
        };
        self.physics.accumulator_nanos = acc % ts;
        let ghost objs2 = self@.objects;
        let ghost phys2 = self@.physics;
        let mut j: u64 = 0;
        while j < k
            invariant
                j <= k,
                self.wf(),
                self@.children == old(self)@.children,
                self@.active_camera == old(self)@.active_camera,
                self@.input == old(self)@.input,
                self@.last_frame_nanos == now_nanos,
                self@.delta_nanos == delta,
                self.assets == old(self).assets,
                stepping_s(objs2, phys2, k as nat) == stepping_s(
                    self@.objects,
                    self@.physics,
                    (k - j) as nat,
                ),
            decreases k - j,
        {
            self.physics.step();
            self.run_post_pass();
            j = j + 1;
        }
        self.input.next_frame();
    }
}

} // verus!
