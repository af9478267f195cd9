//! World-space queries and setters: ancestor-chain composition.
//!
//! A world-space query walks the parent chain from the root down to the
//! entity, composing local matrices left to right; it is re-derived on
//! every call, never cached across frames, because any ancestor may have
//! moved. The walk carries fuel bounded by the table size, so a malformed
//! parent cycle degrades to the identity contribution instead of hanging.

use vstd::prelude::*;
use crate::algebra::{Vec3, Quat, Mat4, vec3_one_s, vec3_add_s, vec3_sub_s, vec3_comp_mul_s,
    vec3_comp_div_s, quat_identity_s, quat_mul_s, quat_conj_s, quat_rotate_s, mat4_identity_s,
    mat4_mul_s, mat4_rotation_s, mat4_scale_s, mat4_translation_s, mat4_translation_of_s,
    lemma_mat4_identity_neutral, lemma_rotation_of_identity, lemma_scale_of_one,
    lemma_translation_mul, lemma_rotate_identity, lemma_comp_div_one};
use crate::object::{GameObject, GameObjectId, ObjV};
use crate::transform::{Transform, local_compound_s, with_caches_s, eff_pos_s};
use crate::world::{World, objs_v, objs_wf, live_s, obj_of_s};

verus! {

/// The composed world matrix of the parent chain ending at `id`
/// (inclusive): the chain's root contributes leftmost. Exhausted fuel, an
/// absent entity or no entity contribute the identity.
pub open spec fn global_mat_s(objs: Seq<Option<ObjV>>, id: Option<GameObjectId>, fuel: nat) ->
    Mat4
    decreases fuel,
{
    if fuel == 0 {
        mat4_identity_s()
    } else {
        match id {
            None => mat4_identity_s(),
            Some(gid) => if live_s(objs, gid) {
                let o = obj_of_s(objs, gid);
                mat4_mul_s(
                    global_mat_s(objs, o.parent, (fuel - 1) as nat),
                    local_compound_s(o.transform),
                )
            } else {
                mat4_identity_s()
            },
        }
    }
}

/// The composed world rotation of the parent chain ending at `id`
/// (inclusive), root leftmost.
pub open spec fn global_rot_s(objs: Seq<Option<ObjV>>, id: Option<GameObjectId>, fuel: nat) ->
    Quat
    decreases fuel,
{
    if fuel == 0 {
        quat_identity_s()
    } else {
        match id {
            None => quat_identity_s(),
            Some(gid) => if live_s(objs, gid) {
                let o = obj_of_s(objs, gid);
                quat_mul_s(global_rot_s(objs, o.parent, (fuel - 1) as nat), o.transform.rot)
            } else {
                quat_identity_s()
            },
        }
    }
}

/// The composed world scale of the parent chain ending at `id`
/// (inclusive), composed componentwise root first.
pub open spec fn global_scale_s(objs: Seq<Option<ObjV>>, id: Option<GameObjectId>, fuel: nat) ->
    Vec3
    decreases fuel,
{
    if fuel == 0 {
        vec3_one_s()
    } else {
        match id {
            None => vec3_one_s(),
            Some(gid) => if live_s(objs, gid) {
                let o = obj_of_s(objs, gid);
                vec3_comp_mul_s(
                    global_scale_s(objs, o.parent, (fuel - 1) as nat),
                    o.transform.scale,
                )
            } else {
                vec3_one_s()
            },
        }
    }
}

/// Undo one local transform on a world-space point: the composed pieces
/// are inverted in reverse composition order — scale last in both orders,
/// translation and rotation swapped by the position-first flag.
pub open spec fn inv_local_point_s(t: Transform, v: Vec3) -> Vec3 {
    if t.compound_pos_first {
        vec3_comp_div_s(quat_rotate_s(quat_conj_s(t.rot), vec3_sub_s(v, eff_pos_s(t))), t.scale)
    } else {
        vec3_comp_div_s(vec3_sub_s(quat_rotate_s(quat_conj_s(t.rot), v), eff_pos_s(t)), t.scale)
    }
}

/// Apply the inverse of the parent chain ending at `id` (inclusive) to a
/// world-space point: the root's inverse is applied first, the entity's
/// own inverse last.
pub open spec fn inv_chain_point_s(objs: Seq<Option<ObjV>>, id: Option<GameObjectId>, v: Vec3,
    fuel: nat) -> Vec3
    decreases fuel,
{
    if fuel == 0 {
        v
    } else {
        match id {
            None => v,
            Some(gid) => if live_s(objs, gid) {
                let o = obj_of_s(objs, gid);
                inv_local_point_s(
                    o.transform,
                    inv_chain_point_s(objs, o.parent, v, (fuel - 1) as nat),
                )
            } else {
                v
            },
        }
    }
}

/// Walk the parent chain and compose world matrices, root leftmost.
pub(crate) fn global_mat_of(objects: &Vec<Option<GameObject>>, id: Option<GameObjectId>, fuel: usize) ->
    (r: Mat4)
    requires
        objs_wf(objs_v(objects@)),
    ensures
        r == global_mat_s(objs_v(objects@), id, fuel as nat),
    decreases fuel,
{
    if fuel == 0 {
        return Mat4::identity();
    }
    match id {
        None => Mat4::identity(),
        Some(gid) => {
            if gid.0 < objects.len() {
                match &objects[gid.0] {
                    Some(o) => {
                        proof {
                            assert(objs_v(objects@)[gid.0 as int] == Some(o@));
                        }
                        let pm = global_mat_of(objects, o.parent, fuel - 1);
                        pm.mul(&o.transform.full_matrix())
                    },
                    None => Mat4::identity(),
                }
            } else {
                Mat4::identity()
            }
        },
    }
}

/// Walk the parent chain and compose world rotations, root leftmost.
pub(crate) fn global_rot_of(objects: &Vec<Option<GameObject>>, id: Option<GameObjectId>, fuel: usize) ->
    (r: Quat)
    requires
        objs_wf(objs_v(objects@)),
    ensures
        r == global_rot_s(objs_v(objects@), id, fuel as nat),
    decreases fuel,
{
    if fuel == 0 {
        return Quat::identity();
    }
    match id {
        None => Quat::identity(),
        Some(gid) => {
            if gid.0 < objects.len() {
                match &objects[gid.0] {
                    Some(o) => {
                        proof {
                            assert(objs_v(objects@)[gid.0 as int] == Some(o@));
                        }
                        let pr = global_rot_of(objects, o.parent, fuel - 1);
                        pr.mul(&o.transform.local_rotation())
                    },
                    None => Quat::identity(),
                }
            } else {
                Quat::identity()
            }
        },
    }
}

/// Walk the parent chain and compose world scales componentwise, root
/// first.
pub(crate) fn global_scale_of(objects: &Vec<Option<GameObject>>, id: Option<GameObjectId>, fuel: usize) ->
    (r: Vec3)
    requires
        objs_wf(objs_v(objects@)),
    ensures
        r == global_scale_s(objs_v(objects@), id, fuel as nat),
    decreases fuel,
{
    if fuel == 0 {
        return Vec3::one();
    }
    match id {
        None => Vec3::one(),
        Some(gid) => {
            if gid.0 < objects.len() {
                match &objects[gid.0] {
                    Some(o) => {
                        proof {
                            assert(objs_v(objects@)[gid.0 as int] == Some(o@));
                        }
                        let ps = global_scale_of(objects, o.parent, fuel - 1);
                        ps.comp_mul(&o.transform.local_scale())
                    },
                    None => Vec3::one(),
                }
            } else {
                Vec3::one()
            }
        },
    }
}

/// Undo one local transform on a world-space point.
pub(crate) fn inv_local_point(t: &Transform, v: Vec3) -> (r: Vec3)
    ensures
        r == inv_local_point_s(*t, v),
{
    let eff = if t.invert_position {
        t.pos.neg()
    } else {
        t.pos
    };
    if t.compound_pos_first {
        t.rot.conj().rotate(&v.sub(&eff)).comp_div(&t.scale)
    } else {
        t.rot.conj().rotate(&v).sub(&eff).comp_div(&t.scale)
    }
}

/// Apply the inverse of the parent chain ending at `id` (inclusive) to a
/// world-space point.
pub(crate) fn inv_chain_point(objects: &Vec<Option<GameObject>>, id: Option<GameObjectId>, v: Vec3,
    fuel: usize) -> (r: Vec3)
    ensures
        r == inv_chain_point_s(objs_v(objects@), id, v, fuel as nat),
    decreases fuel,
{
    if fuel == 0 {
        return v;
    }
    match id {
        None => v,
        Some(gid) => {
            if gid.0 < objects.len() {
                match &objects[gid.0] {
                    Some(o) => {
                        proof {
                            assert(objs_v(objects@)[gid.0 as int] == Some(o@));
                        }
                        let pv = inv_chain_point(objects, o.parent, v, fuel - 1);
                        inv_local_point(&o.transform, pv)
                    },
                    None => v,
                }
            } else {
                v
            }
        },
    }
}

/// The fuel every chain walk starts with: the table size, which bounds the
/// length of every acyclic parent chain, so such a chain is walked whole.
pub open spec fn chain_fuel_s(objs: Seq<Option<ObjV>>) -> nat {
    objs.len()
}

impl World {
    /// The parent of a live entity, absent otherwise.
    pub open spec fn parent_of_s(self, id: GameObjectId) -> Option<GameObjectId> {
        if live_s(self@.objects, id) {
            obj_of_s(self@.objects, id).parent
        } else {
            None
        }
    }

    /// The composed world matrix of an entity's parent chain: including
    /// the entity itself, or of its parents only.
    #[verifier::rlimit(60)]
    pub fn get_global_transform_matrix_ext(&self, id: GameObjectId, include_self: bool) -> (r:
        Mat4)
        requires
            self.wf(),
        ensures
            include_self ==> r == global_mat_s(
                self@.objects,
                Some(id),
                chain_fuel_s(self@.objects),
            ),
            !include_self ==> r == global_mat_s(
                self@.objects,
                self.parent_of_s(id),
                chain_fuel_s(self@.objects),
            ),
    {
        let fuel = self.objects.len();
        if include_self {
            global_mat_of(&self.objects, Some(id), fuel)
        } else {
            let parent = match self.get_object(&id) {
                Some(o) => o.parent,
                None => None,
            };
            global_mat_of(&self.objects, parent, fuel)
        }
    }

    /// The composed world matrix of an entity, its own local matrix
    /// composed last.
    pub fn get_global_transform_matrix(&self, id: GameObjectId) -> (r: Mat4)
        requires
            self.wf(),
        ensures
            r == global_mat_s(self@.objects, Some(id), chain_fuel_s(self@.objects)),
    {
        self.get_global_transform_matrix_ext(id, true)
    }

    /// The composed world rotation of an entity's parent chain: including
    /// the entity itself, or of its parents only.
    #[verifier::rlimit(60)]
    pub fn get_global_rotation_ext(&self, id: GameObjectId, include_self: bool) -> (r: Quat)
        requires
            self.wf(),
        ensures
            include_self ==> r == global_rot_s(
                self@.objects,
                Some(id),
                chain_fuel_s(self@.objects),
            ),
            !include_self ==> r == global_rot_s(
                self@.objects,
                self.parent_of_s(id),
                chain_fuel_s(self@.objects),
            ),
    {
        let fuel = self.objects.len();
        if include_self {
            global_rot_of(&self.objects, Some(id), fuel)
        } else {
            let parent = match self.get_object(&id) {
                Some(o) => o.parent,
                None => None,
            };
            global_rot_of(&self.objects, parent, fuel)
        }
    }

    /// The composed world rotation of an entity.
    pub fn get_global_rotation(&self, id: GameObjectId) -> (r: Quat)
        requires
            self.wf(),
        ensures
            r == global_rot_s(self@.objects, Some(id), chain_fuel_s(self@.objects)),
    {
        self.get_global_rotation_ext(id, true)
    }

    /// The composed world scale matrix of an entity's parent chain:
    /// including the entity itself, or of its parents only.
    #[verifier::rlimit(60)]
    pub fn get_global_scale_matrix_ext(&self, id: GameObjectId, include_self: bool) -> (r: Mat4)
        requires
            self.wf(),
        ensures
            include_self ==> r == mat4_scale_s(
                global_scale_s(self@.objects, Some(id), chain_fuel_s(self@.objects)),
            ),
            !include_self ==> r == mat4_scale_s(
                global_scale_s(self@.objects, self.parent_of_s(id), chain_fuel_s(self@.objects)),
            ),
    {
        let fuel = self.objects.len();
        let s = if include_self {
            global_scale_of(&self.objects, Some(id), fuel)
        } else {
            let parent = match self.get_object(&id) {
                Some(o) => o.parent,
                None => None,
            };
            global_scale_of(&self.objects, parent, fuel)
        };
        Mat4::scaling(&s)
    }

    /// The composed world scale matrix of an entity.
    pub fn get_global_scale_matrix(&self, id: GameObjectId) -> (r: Mat4)
        requires
            self.wf(),
        ensures
            r == mat4_scale_s(
                global_scale_s(self@.objects, Some(id), chain_fuel_s(self@.objects)),
            ),
    {
        self.get_global_scale_matrix_ext(id, true)
    }

    /// The world-space position of an entity: the translation column of
    /// its composed world matrix.
    pub fn position(&self, id: GameObjectId) -> (r: Vec3)
        requires
            self.wf(),
        ensures
            r == mat4_translation_of_s(
                global_mat_s(self@.objects, Some(id), chain_fuel_s(self@.objects)),
            ),
    {
        self.get_global_transform_matrix(id).translation_of()
    }

    /// The world-space rotation of an entity.
    pub fn rotation(&self, id: GameObjectId) -> (r: Quat)
        requires
            self.wf(),
        ensures
            r == global_rot_s(self@.objects, Some(id), chain_fuel_s(self@.objects)),
    {
        self.get_global_rotation(id)
    }

    /// The world-space scale of an entity.
    pub fn scale(&self, id: GameObjectId) -> (r: Vec3)
        requires
            self.wf(),
        ensures
            r == global_scale_s(self@.objects, Some(id), chain_fuel_s(self@.objects)),
    {
        let fuel = self.objects.len();
        global_scale_of(&self.objects, Some(id), fuel)
    }
}

/// World-position round trip: a child placed under a parent — both with
/// identity rotation, unit scale and default composition flags — and set
/// to a world position `target` reads exactly `target` back from the
/// world-position query, provided the offset from the parent's position
/// does not saturate. The left-hand sides below are precisely what
/// `set_position` ensures it stores and what `position` ensures it
/// computes. Under rotation or non-unit scale the fixed-point inverses
/// round, and the round trip holds only approximately.
pub proof fn lemma_set_position_round_trip(objs: Seq<Option<ObjV>>, parent: GameObjectId,
    child: GameObjectId, target: Vec3)
    requires
        objs_wf(objs),
        live_s(objs, parent),
        live_s(objs, child),
        parent != child,
        obj_of_s(objs, child).parent == Some(parent),
        obj_of_s(objs, parent).parent is None,
        obj_of_s(objs, parent).transform.rot == quat_identity_s(),
        obj_of_s(objs, parent).transform.scale == vec3_one_s(),
        !obj_of_s(objs, parent).transform.invert_position,
        obj_of_s(objs, parent).transform.compound_pos_first,
        obj_of_s(objs, child).transform.rot == quat_identity_s(),
        obj_of_s(objs, child).transform.scale == vec3_one_s(),
        !obj_of_s(objs, child).transform.invert_position,
        obj_of_s(objs, child).transform.compound_pos_first,
        i64::MIN <= target.x - obj_of_s(objs, parent).transform.pos.x <= i64::MAX,
        i64::MIN <= target.y - obj_of_s(objs, parent).transform.pos.y <= i64::MAX,
        i64::MIN <= target.z - obj_of_s(objs, parent).transform.pos.z <= i64::MAX,
    ensures
        ({
            let rest = objs.update(child.0 as int, None);
            let lp = inv_chain_point_s(rest, Some(parent), target, chain_fuel_s(objs));
            let o2 = ObjV {
                transform: with_caches_s(
                    Transform { pos: lp, ..obj_of_s(objs, child).transform },
                ),
                ..obj_of_s(objs, child)
            };
            let objs2 = objs.update(child.0 as int, Some(o2));
            mat4_translation_of_s(
                global_mat_s(objs2, Some(child), chain_fuel_s(objs2)),
            ) == target
        }),
{
    reveal(local_compound_s);
    reveal(with_caches_s);
    let n = objs.len() as int;
    let pt = obj_of_s(objs, parent).transform;
    let ct = obj_of_s(objs, child).transform;
    let ppos = pt.pos;
    let rest = objs.update(child.0 as int, None);
    let lp = inv_chain_point_s(rest, Some(parent), target, chain_fuel_s(objs));
    assert(live_s(rest, parent));
    assert(obj_of_s(rest, parent) == obj_of_s(objs, parent));
    assert(chain_fuel_s(objs) >= 1);
    assert(inv_chain_point_s(rest, None, target, (chain_fuel_s(objs) - 1) as nat) == target);
    assert(lp == inv_local_point_s(pt, target));
    lemma_rotate_identity(vec3_sub_s(target, ppos));
    lemma_comp_div_one(quat_rotate_s(quat_conj_s(quat_identity_s()), vec3_sub_s(target, ppos)));
    assert(lp == vec3_sub_s(target, ppos));
    let o2 = ObjV {
        transform: with_caches_s(Transform { pos: lp, ..ct }),
        ..obj_of_s(objs, child)
    };
    let objs2 = objs.update(child.0 as int, Some(o2));
    let t2 = o2.transform;
    assert(t2.pos == lp && t2.rot == quat_identity_s() && t2.scale == vec3_one_s()
        && !t2.invert_position && t2.compound_pos_first);
    assert(live_s(objs2, child));
    assert(live_s(objs2, parent));
    assert(obj_of_s(objs2, parent) == obj_of_s(objs, parent));
    lemma_rotation_of_identity();
    lemma_scale_of_one();
    lemma_mat4_identity_neutral(mat4_translation_s(ppos));
    lemma_mat4_identity_neutral(mat4_translation_s(lp));
    lemma_mat4_identity_neutral(
        mat4_mul_s(mat4_translation_s(ppos), mat4_rotation_s(quat_identity_s())),
    );
    lemma_mat4_identity_neutral(
        mat4_mul_s(mat4_translation_s(lp), mat4_rotation_s(quat_identity_s())),
    );
    assert(local_compound_s(pt) == mat4_translation_s(ppos));
    assert(local_compound_s(t2) == mat4_translation_s(lp));
    let g_parent = global_mat_s(objs2, Some(parent), (chain_fuel_s(objs2) - 1) as nat);
    assert(g_parent == mat4_mul_s(
        global_mat_s(objs2, None, (chain_fuel_s(objs2) - 2) as nat),
        local_compound_s(pt),
    ));
    lemma_mat4_identity_neutral(local_compound_s(pt));
    assert(g_parent == mat4_translation_s(ppos));
    assert(global_mat_s(objs2, Some(child), chain_fuel_s(objs2)) == mat4_mul_s(
        g_parent,
        local_compound_s(t2),
    ));
    lemma_translation_mul(ppos, lp);
    assert(mat4_translation_of_s(mat4_translation_s(vec3_add_s(ppos, lp))) == vec3_add_s(
        ppos,
        lp,
    ));
    assert(vec3_add_s(ppos, lp) == target);
}

} // verus!
