//! The world: the entity table, the scene-graph roots, the active camera,
//! the physics simulation, the input snapshot, and delta-time bookkeeping.
//!
//! The table is the single owner of entity memory. Identifiers are indices
//! that are never reused within a run: a destroyed entity leaves an absent
//! slot forever, so a stale handle is detected, not dangling. Every
//! cross-entity access goes through a checked lookup that degrades to
//! absent. The world is threaded explicitly through every call that needs
//! it; there is no process-wide singleton.

use vstd::prelude::*;
use crate::assets::AssetManager;
use crate::input::{InputManager, InputV};
use crate::object::{GameObject, GameObjectId, ObjV};
use crate::physics::{PhysicsSim, PhysV};
use crate::transform::{Transform, transform_default_s};

verus! {

/// Mathematical model of the world.
#[verifier::ext_equal]
pub struct WorldV {
    /// The entity table: slot `i` holds the entity with identifier `i`, or
    /// is absent after destruction.
    pub objects: Seq<Option<ObjV>>,
    /// Identifiers registered as top-level scene members, in registration
    /// order.
    pub children: Seq<GameObjectId>,
    /// The camera the renderer follows, if any.
    pub active_camera: Option<GameObjectId>,
    /// The physics simulation.
    pub physics: PhysV,
    /// The input snapshot.
    pub input: InputV,
    /// Wall-clock time of the previous tick, in nanoseconds.
    pub last_frame_nanos: u64,
    /// Elapsed wall-clock time between the last two ticks, in nanoseconds.
    pub delta_nanos: u64,
}

/// The world: single source of truth for object existence.
pub struct World {
    /// The entity table: slot `i` holds the entity with identifier `i`, or
    /// is absent after destruction. Identifiers are never reused.
    pub objects: Vec<Option<GameObject>>,
    /// Identifiers registered as top-level scene members, in registration
    /// order.
    pub children: Vec<GameObjectId>,
    /// The camera the renderer follows, if any.
    pub active_camera: Option<GameObjectId>,
    /// Processor-side asset tables.
    pub assets: AssetManager,
    /// The physics simulation.
    pub physics: PhysicsSim,
    /// The input snapshot.
    pub input: InputManager,
    /// Wall-clock time of the previous tick, in nanoseconds.
    pub last_frame_nanos: u64,
    /// Elapsed wall-clock time between the last two ticks, in nanoseconds.
    pub delta_nanos: u64,
}

/// The model of an entity table.
pub open spec fn objs_v(objects: Seq<Option<GameObject>>) -> Seq<Option<ObjV>> {
    objects.map_values(
        |o: Option<GameObject>|
            match o {
                Some(g) => Some(g@),
                None => None,
            },
    )
}

impl View for World {
    type V = WorldV;

    open spec fn view(&self) -> WorldV {
        WorldV {
            objects: objs_v(self.objects@),
            children: self.children@,
            active_camera: self.active_camera,
            physics: self.physics@,
            input: self.input@,
            last_frame_nanos: self.last_frame_nanos,
            delta_nanos: self.delta_nanos,
        }
    }
}

/// An identifier resolves to a live entity.
pub open spec fn live_s(objs: Seq<Option<ObjV>>, id: GameObjectId) -> bool {
    id.0 < objs.len() && objs[id.0 as int] is Some
}

/// The live entity an identifier resolves to.
pub open spec fn obj_of_s(objs: Seq<Option<ObjV>>, id: GameObjectId) -> ObjV
    recommends
        live_s(objs, id),
{
    objs[id.0 as int]->Some_0
}

/// Table well-formedness: every live entity carries the identifier of its
/// slot, its transform caches are consistent, and every attached component
/// is owned by it.
pub open spec fn objs_wf(objs: Seq<Option<ObjV>>) -> bool {
    forall|i: int|
        0 <= i < objs.len() ==> match #[trigger] objs[i] {
            Some(o) => o.id.0 == i && o.transform.wf() && (forall|j: int|
                0 <= j < o.components.len() ==> (#[trigger] o.components[j]).owner.0 == i),
            None => true,
        }
}

/// A fresh entity: empty child list, no parent, the default transform, no
/// drawable, no components.
pub open spec fn new_obj_s(id: GameObjectId, name: Seq<char>) -> ObjV {
    ObjV {
        id,
        name,
        children: Seq::empty(),
        parent: None,
        transform: transform_default_s(),
        drawable: None,
        components: Seq::empty(),
    }
}

/// A sequence with the first occurrence of a value removed, if present.
pub open spec fn remove_first_s(s: Seq<GameObjectId>, id: GameObjectId) -> Seq<GameObjectId>
    decreases s.len(),
{
    if s.len() == 0 {
        s
    } else if s[0] == id {
        s.drop_first()
    } else {
        seq![s[0]] + remove_first_s(s.drop_first(), id)
    }
}

/// Detach an identifier from its parent's child list, in the given table.
pub open spec fn detach_objects_s(objs: Seq<Option<ObjV>>, id: GameObjectId) -> Seq<
    Option<ObjV>,
>
    recommends
        live_s(objs, id),
{
    let o = obj_of_s(objs, id);
    match o.parent {
        Some(p) => if live_s(objs, p) && p != id {
            let po = obj_of_s(objs, p);
            objs.update(
                p.0 as int,
                Some(ObjV { children: remove_first_s(po.children, id), ..po }),
            )
        } else {
            objs
        },
        None => objs,
    }
}

/// Detach an identifier from its parent's child list and from the
/// top-level list, in the given table.
pub open spec fn detach_links_s(w: WorldV, id: GameObjectId) -> WorldV
    recommends
        live_s(w.objects, id),
{
    WorldV {
        objects: detach_objects_s(w.objects, id),
        children: remove_first_s(w.children, id),
        ..w
    }
}

/// Unlink an identifier from its parent's child list, from the top-level
/// list, and from the active-camera reference, in the given table.
pub open spec fn unlink_s(w: WorldV, id: GameObjectId) -> WorldV
    recommends
        live_s(w.objects, id),
{
    let w1 = detach_links_s(w, id);
    WorldV {
        active_camera: if w.active_camera == Some(id) {
            None
        } else {
            w.active_camera
        },
        ..w1
    }
}

/// Destruction: the entity's slot becomes absent and every link to it —
/// its former parent's child list, the top-level list, the active-camera
/// reference — is cleared. Children are not destroyed: the policy is
/// non-cascading, and their parent references degrade to absent.
pub open spec fn destroy_s(w: WorldV, id: GameObjectId) -> WorldV
    recommends
        live_s(w.objects, id),
{
    let w1 = unlink_s(w, id);
    WorldV { objects: w1.objects.update(id.0 as int, None), ..w1 }
}

/// Link well-formedness: no entity is its own parent; every live entity's
/// child list holds only live entities that record it as their parent,
/// each at most once; and the top-level list holds only live parentless
/// entities, each at most once. Detach-first attachment keeps this
/// invariant, and under it every identifier occurs in at most one list —
/// its recorded parent's, or the top-level list when it has none.
pub open spec fn links_wf(objs: Seq<Option<ObjV>>, roots: Seq<GameObjectId>) -> bool {
    (forall|i: int|
        0 <= i < objs.len() && (#[trigger] objs[i]) is Some ==> objs[i]->Some_0.parent != Some(
            GameObjectId(i as usize),
        )) && (forall|i: int|
        0 <= i < objs.len() ==> match #[trigger] objs[i] {
            Some(o) => forall|k: int|
                0 <= k < o.children.len() ==> live_s(objs, #[trigger] o.children[k])
                    && obj_of_s(objs, o.children[k]).parent == Some(GameObjectId(i as usize))
                    && (forall|k2: int|
                    0 <= k2 < o.children.len() && o.children[k2] == o.children[k] ==> k2 == k),
            None => true,
        }) && (forall|k: int|
        0 <= k < roots.len() ==> live_s(objs, #[trigger] roots[k]) && obj_of_s(
            objs,
            roots[k],
        ).parent is None && (forall|k2: int|
            0 <= k2 < roots.len() && roots[k2] == roots[k] ==> k2 == k))
}

/// Removing the first occurrence of an identifier from a pairwise-distinct
/// list keeps it pairwise distinct, drops the identifier entirely, and
/// introduces no new members.
pub proof fn lemma_remove_first_props(s: Seq<GameObjectId>, id: GameObjectId)
    requires
        forall|k: int, k2: int|
            0 <= k < s.len() && 0 <= k2 < s.len() && s[k] == s[k2] ==> k == k2,
    ensures
        forall|k: int, k2: int|
            0 <= k < remove_first_s(s, id).len() && 0 <= k2 < remove_first_s(s, id).len()
                && #[trigger] remove_first_s(s, id)[k] == #[trigger] remove_first_s(s, id)[k2]
                ==> k == k2,
        !remove_first_s(s, id).contains(id),
        forall|k: int|
            0 <= k < remove_first_s(s, id).len() ==> s.contains(
                #[trigger] remove_first_s(s, id)[k],
            ),
    decreases s.len(),
{
    if s.len() == 0 {
    } else if s[0] == id {
        assert forall|k: int| 0 <= k < s.drop_first().len() implies s.contains(
            #[trigger] s.drop_first()[k],
        ) && s.drop_first()[k] != id by {
            assert(s.drop_first()[k] == s[k + 1]);
        }
        assert forall|k: int, k2: int|
            0 <= k < s.drop_first().len() && 0 <= k2 < s.drop_first().len()
                && #[trigger] s.drop_first()[k] == #[trigger] s.drop_first()[k2] implies k
            == k2 by {
            assert(s.drop_first()[k] == s[k + 1]);
            assert(s.drop_first()[k2] == s[k2 + 1]);
        }
        assert(!remove_first_s(s, id).contains(id)) by {
            if remove_first_s(s, id).contains(id) {
                let k = choose|k: int|
                    0 <= k < s.drop_first().len() && s.drop_first()[k] == id;
                assert(s[k + 1] == id && s[0] == id);
            }
        }
    } else {
        assert forall|k: int, k2: int|
            0 <= k < s.drop_first().len() && 0 <= k2 < s.drop_first().len()
                && #[trigger] s.drop_first()[k] == #[trigger] s.drop_first()[k2] implies k
            == k2 by {
            assert(s.drop_first()[k] == s[k + 1]);
            assert(s.drop_first()[k2] == s[k2 + 1]);
        }
        lemma_remove_first_props(s.drop_first(), id);
        let r = remove_first_s(s, id);
        assert(r == seq![s[0]] + remove_first_s(s.drop_first(), id));
        assert forall|k: int| 0 <= k < r.len() implies s.contains(#[trigger] r[k]) by {
            if k == 0 {
                assert(r[0] == s[0]);
            } else {
                assert(r[k] == remove_first_s(s.drop_first(), id)[k - 1]);
                assert(s.drop_first().contains(r[k])) by {
                    assert(remove_first_s(s.drop_first(), id).contains(
                        remove_first_s(s.drop_first(), id)[k - 1],
                    ));
                }
                let k0 = choose|k0: int|
                    0 <= k0 < s.drop_first().len() && s.drop_first()[k0] == r[k];
                assert(s[k0 + 1] == r[k]);
            }
        }
        assert(!r.contains(id)) by {
            if r.contains(id) {
                let k = choose|k: int| 0 <= k < r.len() && r[k] == id;
                if k == 0 {
                    assert(s[0] == id);
                } else {
                    assert(remove_first_s(s.drop_first(), id)[k - 1] == id);
                    assert(remove_first_s(s.drop_first(), id).contains(id));
                }
            }
        }
        assert forall|k: int, k2: int|
            0 <= k < r.len() && 0 <= k2 < r.len() && #[trigger] r[k] == #[trigger] r[k2]
                implies k == k2 by {
            if k != k2 {
                if k == 0 || k2 == 0 {
                    let kn = if k == 0 { k2 } else { k };
                    assert(r[kn] == remove_first_s(s.drop_first(), id)[kn - 1]);
                    assert(s.drop_first().contains(r[kn])) by {
                        assert(remove_first_s(s.drop_first(), id).contains(
                            remove_first_s(s.drop_first(), id)[kn - 1],
                        ));
                    }
                    let k0 = choose|k0: int|
                        0 <= k0 < s.drop_first().len() && s.drop_first()[k0] == r[kn];
                    assert(s[k0 + 1] == r[kn] && s[0] == r[kn]);
                } else {
                    assert(r[k] == remove_first_s(s.drop_first(), id)[k - 1]);
                    assert(r[k2] == remove_first_s(s.drop_first(), id)[k2 - 1]);
                }
            }
        }
    }
}

/// A table change that keeps every slot's presence, child list and parent
/// reference keeps the links invariant.
pub proof fn lemma_links_same_shape(a: Seq<Option<ObjV>>, b: Seq<Option<ObjV>>,
    roots: Seq<GameObjectId>)
    requires
        links_wf(a, roots),
        b.len() == a.len(),
        forall|i: int| 0 <= i < a.len() ==> ((#[trigger] b[i]) is Some <==> a[i] is Some),
        forall|i: int|
            0 <= i < a.len() && a[i] is Some ==> (#[trigger] b[i])->Some_0.children
                == a[i]->Some_0.children && b[i]->Some_0.parent == a[i]->Some_0.parent,
    ensures
        links_wf(b, roots),
{
    assert forall|i: int| 0 <= i < b.len() implies match #[trigger] b[i] {
        Some(o) => forall|k: int|
            0 <= k < o.children.len() ==> live_s(b, #[trigger] o.children[k]) && obj_of_s(
                b,
                o.children[k],
            ).parent == Some(GameObjectId(i as usize)) && (forall|k2: int|
                0 <= k2 < o.children.len() && o.children[k2] == o.children[k] ==> k2 == k),
        None => true,
    } by {
        match b[i] {
            Some(o) => {
                let oa = a[i]->Some_0;
                assert forall|k: int| 0 <= k < o.children.len() implies live_s(
                    b,
                    #[trigger] o.children[k],
                ) && obj_of_s(b, o.children[k]).parent == Some(GameObjectId(i as usize)) && (
                forall|k2: int|
                    0 <= k2 < o.children.len() && o.children[k2] == o.children[k] ==> k2
                        == k) by {
                    assert(o.children == oa.children);
                    let c = oa.children[k];
                    assert(live_s(a, c) && obj_of_s(a, c).parent == Some(
                        GameObjectId(i as usize),
                    ));
                }
            },
            None => {},
        }
    }
    assert forall|k: int| 0 <= k < roots.len() implies live_s(b, #[trigger] roots[k])
        && obj_of_s(b, roots[k]).parent is None && (forall|k2: int|
        0 <= k2 < roots.len() && roots[k2] == roots[k] ==> k2 == k) by {
        let c = roots[k];
        assert(live_s(a, c) && obj_of_s(a, c).parent is None);
    }
}

impl World {
    /// Well-formed: the table invariant holds, the scene-graph links are
    /// coherent, and the physics timestep is positive.
    pub open spec fn wf(self) -> bool {
        objs_wf(self@.objects) && links_wf(self@.objects, self@.children)
            && self@.physics.timestep_nanos > 0
    }

    /// An empty world: no entities, no roots, no camera, fresh physics and
    /// input, zeroed clocks.
    pub fn new() -> (r: World)
        ensures
            r.wf(),
            r@.objects.len() == 0,
            r@.children.len() == 0,
            r@.active_camera is None,
            r@.delta_nanos == 0u64,
            r@.last_frame_nanos == 0u64,
            r@.physics.bodies.len() == 0,
    {
        World {
            objects: Vec::new(),
            children: Vec::new(),
            active_camera: None,
            assets: AssetManager::new(),
            physics: PhysicsSim::new(),
            input: InputManager::new(),
            last_frame_nanos: 0,
            delta_nanos: 0,
        }
    }

    /// Checked lookup; absent for an unknown or destroyed identifier,
    /// never a crash.
    pub fn get_object(&self, id: &GameObjectId) -> (r: Option<&GameObject>)
        ensures
            live_s(self@.objects, *id) ==> (r matches Some(o) && o@ == obj_of_s(
                self@.objects,
                *id,
            )),
            !live_s(self@.objects, *id) ==> r is None,
    {
        if id.0 < self.objects.len() {
            match &self.objects[id.0] {
                Some(o) => Some(o),
                None => None,
            }
        } else {
            None
        }
    }

    /// Allocate the next identifier — monotonically increasing, never
    /// reused within a run — and insert a fresh entity under it.
    pub fn new_object(&mut self, name: &str) -> (id: GameObjectId)
        requires
            old(self).wf(),
        ensures
            final(self).wf(),
            id.0 == old(self)@.objects.len(),
            final(self)@ == (WorldV {
                objects: old(self)@.objects.push(Some(new_obj_s(id, name@))),
                ..old(self)@
            }),
            final(self).assets == old(self).assets,
    {
        let id = GameObjectId(self.objects.len());
        let obj = GameObject {
            id,
            name: name.to_owned(),
            children: Vec::new(),
            parent: None,
            transform: Transform::new(),
            drawable: None,
            components: Vec::new(),
        };
        self.objects.push(Some(obj));
        proof {
            assert(self@.objects =~~= old(self)@.objects.push(Some(new_obj_s(id, name@))));
            assert(objs_wf(self@.objects));
        }
        id
    }

    /// Destroy an entity: its slot becomes absent forever and every link
    /// to it is cleared; children are not destroyed (non-cascading
    /// policy). Reports whether the identifier was live; a stale
    /// identifier is a recoverable no-op.
    #[verifier::rlimit(60)]
    pub fn destroy(&mut self, id: GameObjectId) -> (ok: bool)
        requires
            old(self).wf(),
        ensures
            final(self).wf(),
            ok == live_s(old(self)@.objects, id),
            ok ==> final(self)@ == destroy_s(old(self)@, id),
            !ok ==> *final(self) == *old(self),
            final(self).assets == old(self).assets,
    {
        if id.0 >= self.objects.len() {
            return false;
        }
        let parent: Option<GameObjectId> = match &self.objects[id.0] {
            Some(o) => o.parent,
            None => {
                return false;
            },
        };
        let ghost w0 = self@;
        match parent {
            Some(p) => {
                if p.0 != id.0 && p.0 < self.objects.len() {
                    self.detach_child_entry(p, id);
                }
            },
            None => {},
        }
        proof {
            assert(self@.objects =~~= unlink_s(w0, id).objects);
        }
        remove_first(&mut self.children, id);
        if self.active_camera == Some(id) {
            self.active_camera = None;
        }
        self.objects[id.0] = None;
        proof {
            assert(self@.objects =~~= destroy_s(w0, id).objects);
            assert(self@ =~~= destroy_s(w0, id));
            lemma_wf_after_destroy(w0, id);
            lemma_links_after_destroy(w0, id);
        }
        true
    }

    /// Remove the first occurrence of `id` from the child list of the
    /// entity in slot `p`; an absent slot is left as it is.
    pub(crate) fn detach_child_entry(&mut self, p: GameObjectId, id: GameObjectId)
        requires
            p.0 < old(self).objects@.len(),
        ensures
            final(self)@.objects == (match old(self)@.objects[p.0 as int] {
                Some(po) => old(self)@.objects.update(
                    p.0 as int,
                    Some(ObjV { children: remove_first_s(po.children, id), ..po }),
                ),
                None => old(self)@.objects,
            }),
            final(self)@.children == old(self)@.children,
            final(self)@.active_camera == old(self)@.active_camera,
            final(self)@.physics == old(self)@.physics,
            final(self)@.input == old(self)@.input,
            final(self)@.last_frame_nanos == old(self)@.last_frame_nanos,
            final(self)@.delta_nanos == old(self)@.delta_nanos,
            final(self).assets == old(self).assets,
    {
        let po = self.objects.remove(p.0);
        match po {
            Some(mut pobj) => {
                remove_first(&mut pobj.children, id);
                self.objects.insert(p.0, Some(pobj));
                proof {
                    let po0 = old(self)@.objects[p.0 as int]->Some_0;
                    let tgt = old(self)@.objects.update(
                        p.0 as int,
                        Some(ObjV { children: remove_first_s(po0.children, id), ..po0 }),
                    );
                    assert forall|k: int| 0 <= k < self@.objects.len() implies self@.objects[k]
                        == tgt[k] by {
                        if k != p.0 as int {
                            assert(self.objects@[k] == old(self).objects@[k]);
                        }
                    }
                    assert(self@.objects =~~= tgt);
                }
            },
            None => {
                self.objects.insert(p.0, None);
                proof {
                    assert(self@.objects =~~= old(self)@.objects);
                }
            },
        }
    }

    /// The lowest identifier whose live entity bears the given name.
    pub fn find_object_by_name(&self, name: &str) -> (r: Option<GameObjectId>)
        ensures
            match r {
                Some(id) => live_s(self@.objects, id) && obj_of_s(self@.objects, id).name
                    == name@ && (forall|j: int|
                    0 <= j < id.0 ==> !((#[trigger] self@.objects[j]) matches Some(o) && o.name
                        == name@)),
                None => forall|j: int|
                    0 <= j < self@.objects.len() ==> !((#[trigger] self@.objects[j]) matches Some(
                        o,
                    ) && o.name == name@),
            },
    {
        let needle = name.to_owned();
        let n = self.objects.len();
        for i in 0..n
            invariant
                n == self@.objects.len(),
                needle@ == name@,
                forall|j: int| 0 <= j < i ==> !((#[trigger] self@.objects[j]) matches Some(o)
                    && o.name == name@),
        {
            match &self.objects[i] {
                Some(o) => {
                    if o.name == needle {
                        return Some(GameObjectId(i));
                    }
                },
                None => {},
            }
        }
        None
    }

    /// The elapsed wall-clock time between the last two ticks, in
    /// nanoseconds.
    pub fn get_delta_time(&self) -> (r: u64)
        ensures
            r == self@.delta_nanos,
    {
        self.delta_nanos
    }
}

impl World {
    /// Append `c` to the child list of the live entity in slot `p` and
    /// point the live entity in slot `c` at parent `p`, in one pass.
    #[verifier::rlimit(60)]
    pub(crate) fn attach_entries(&mut self, p: GameObjectId, c: GameObjectId)
        requires
            p.0 < old(self).objects@.len(),
            c.0 < old(self).objects@.len(),
            p.0 != c.0,
            objs_v(old(self).objects@)[p.0 as int] is Some,
            objs_v(old(self).objects@)[c.0 as int] is Some,
        ensures
            final(self)@.objects == ({
                let po = obj_of_s(old(self)@.objects, p);
                let o2 = old(self)@.objects.update(
                    p.0 as int,
                    Some(ObjV { children: po.children.push(c), ..po }),
                );
                let co = o2[c.0 as int]->Some_0;
                o2.update(c.0 as int, Some(ObjV { parent: Some(p), ..co }))
            }),
            final(self)@.children == old(self)@.children,
            final(self)@.active_camera == old(self)@.active_camera,
            final(self)@.physics == old(self)@.physics,
            final(self)@.input == old(self)@.input,
            final(self)@.last_frame_nanos == old(self)@.last_frame_nanos,
            final(self)@.delta_nanos == old(self)@.delta_nanos,
            final(self).assets == old(self).assets,
    {
        let po = self.objects.remove(p.0);
        match po {
            Some(mut pobj) => {
                pobj.children.push(c);
                self.objects.insert(p.0, Some(pobj));
            },
            None => {
                self.objects.insert(p.0, None);
            },
        }
        let co = self.objects.remove(c.0);
        match co {
            Some(mut cobj) => {
                cobj.parent = Some(p);
                self.objects.insert(c.0, Some(cobj));
            },
            None => {
                self.objects.insert(c.0, None);
            },
        }
        proof {
            let po0 = obj_of_s(old(self)@.objects, p);
            let o2 = old(self)@.objects.update(
                p.0 as int,
                Some(ObjV { children: po0.children.push(c), ..po0 }),
            );
            let co0 = o2[c.0 as int]->Some_0;
            let tgt = o2.update(c.0 as int, Some(ObjV { parent: Some(p), ..co0 }));
            assert forall|k: int| 0 <= k < self@.objects.len() implies self@.objects[k]
                == tgt[k] by {
                if k != p.0 as int && k != c.0 as int {
                    assert(self.objects@[k] == old(self).objects@[k]);
                }
            }
            assert(self@.objects =~~= tgt);
        }
    }
}

/// Clearing one slot keeps the table invariant.
pub proof fn lemma_wf_set_none(a: Seq<Option<ObjV>>, k: int)
    requires
        objs_wf(a),
        0 <= k < a.len(),
    ensures
        objs_wf(a.update(k, None)),
{
    let b = a.update(k, None);
    assert forall|i: int| 0 <= i < b.len() implies match #[trigger] b[i] {
        Some(x) => x.id.0 == i && x.transform.wf() && (forall|j: int|
            0 <= j < x.components.len() ==> (#[trigger] x.components[j]).owner.0 == i),
        None => true,
    } by {
        if i != k {
            assert(b[i] == a[i]);
        }
    }
}

/// Updating one slot with an entity that carries the slot's identifier, a
/// well-formed transform and only self-owned components keeps the table
/// invariant.
pub proof fn lemma_wf_update(a: Seq<Option<ObjV>>, k: int, o: ObjV)
    requires
        objs_wf(a),
        0 <= k < a.len(),
        o.id.0 == k,
        o.transform.wf(),
        forall|j: int| 0 <= j < o.components.len() ==> (#[trigger] o.components[j]).owner.0 == k,
    ensures
        objs_wf(a.update(k, Some(o))),
{
    let b = a.update(k, Some(o));
    assert forall|i: int| 0 <= i < b.len() implies match #[trigger] b[i] {
        Some(x) => x.id.0 == i && x.transform.wf() && (forall|j: int|
            0 <= j < x.components.len() ==> (#[trigger] x.components[j]).owner.0 == i),
        None => true,
    } by {
        if i != k {
            assert(b[i] == a[i]);
        }
    }
}

/// Destruction keeps the links invariant: under link coherence the
/// destroyed identifier sat only in its recorded parent's list and
/// possibly the top-level list, and it leaves both.
#[verifier::rlimit(100)]
pub proof fn lemma_links_after_destroy(w: WorldV, id: GameObjectId)
    requires
        objs_wf(w.objects),
        links_wf(w.objects, w.children),
        live_s(w.objects, id),
    ensures
        links_wf(destroy_s(w, id).objects, destroy_s(w, id).children),
{
    let d = destroy_s(w, id);
    let o = obj_of_s(w.objects, id);
    assert forall|i: int| 0 <= i < d.objects.len() implies match #[trigger] d.objects[i] {
        Some(oo) => forall|k: int|
            0 <= k < oo.children.len() ==> live_s(d.objects, #[trigger] oo.children[k])
                && obj_of_s(d.objects, oo.children[k]).parent == Some(
                GameObjectId(i as usize),
            ) && (forall|k2: int|
                0 <= k2 < oo.children.len() && oo.children[k2] == oo.children[k] ==> k2 == k),
        None => true,
    } by {
        if i != id.0 as int {
            match d.objects[i] {
                Some(oo) => {
                    let ow = w.objects[i]->Some_0;
                    assert(w.objects[i] is Some);
                    let rewritten = o.parent matches Some(p) && live_s(w.objects, p) && p != id
                        && p.0 as int == i;
                    if rewritten {
                        assert(oo.children == remove_first_s(ow.children, id));
                        assert forall|k: int, k2: int|
                            0 <= k < ow.children.len() && 0 <= k2 < ow.children.len()
                                && ow.children[k] == ow.children[k2] implies k == k2 by {}
                        lemma_remove_first_props(ow.children, id);
                    } else {
                        assert(oo.children == ow.children);
                    }
                    assert forall|k: int| 0 <= k < oo.children.len() implies live_s(
                        d.objects,
                        #[trigger] oo.children[k],
                    ) && obj_of_s(d.objects, oo.children[k]).parent == Some(
                        GameObjectId(i as usize),
                    ) && (forall|k2: int|
                        0 <= k2 < oo.children.len() && oo.children[k2] == oo.children[k]
                            ==> k2 == k) by {
                        let c = oo.children[k];
                        if rewritten {
                            assert(ow.children.contains(c));
                            let k0 = choose|k0: int|
                                0 <= k0 < ow.children.len() && ow.children[k0] == c;
                            assert(live_s(w.objects, c) && obj_of_s(w.objects, c).parent
                                == Some(GameObjectId(i as usize)));
                            assert(c != id) by {
                                if c == id {
                                    assert(remove_first_s(ow.children, id).contains(id)) by {
                                        assert(oo.children[k] == id);
                                    }
                                }
                            }
                        } else {
                            assert(live_s(w.objects, c) && obj_of_s(w.objects, c).parent
                                == Some(GameObjectId(i as usize)));
                            assert(c != id) by {
                                if c == id {
                                    assert(o.parent == Some(GameObjectId(i as usize)));
                                    assert(live_s(w.objects, GameObjectId(i as usize)));
                                    assert(GameObjectId(i as usize) != id);
                                }
                            }
                        }
                        assert(c.0 as int != id.0 as int);
                        assert(d.objects[c.0 as int] is Some);
                        assert(obj_of_s(d.objects, c).parent == obj_of_s(
                            w.objects,
                            c,
                        ).parent);
                    }
                },
                None => {},
            }
        }
    }
    lemma_remove_first_props(w.children, id);
    assert forall|k: int| 0 <= k < d.children.len() implies live_s(
        d.objects,
        #[trigger] d.children[k],
    ) && obj_of_s(d.objects, d.children[k]).parent is None && (forall|k2: int|
        0 <= k2 < d.children.len() && d.children[k2] == d.children[k] ==> k2 == k) by {
        let c = d.children[k];
        assert(w.children.contains(c));
        let k0 = choose|k0: int| 0 <= k0 < w.children.len() && w.children[k0] == c;
        assert(live_s(w.objects, c) && obj_of_s(w.objects, c).parent is None);
        assert(c != id) by {
            if c == id {
                assert(remove_first_s(w.children, id).contains(id)) by {
                    assert(d.children[k] == id);
                }
            }
        }
        assert(d.objects[c.0 as int] is Some);
        assert(obj_of_s(d.objects, c).parent == obj_of_s(w.objects, c).parent);
    }
}

/// Destruction keeps the table invariant: surviving entities keep their
/// identifiers, transforms and components; only a child list shrinks.
pub proof fn lemma_wf_after_destroy(w: WorldV, id: GameObjectId)
    requires
        objs_wf(w.objects),
        live_s(w.objects, id),
    ensures
        objs_wf(destroy_s(w, id).objects),
{
    let tgt = destroy_s(w, id).objects;
    assert forall|k: int| 0 <= k < tgt.len() implies match #[trigger] tgt[k] {
        Some(o) => o.id.0 == k && o.transform.wf() && (forall|j: int|
            0 <= j < o.components.len() ==> (#[trigger] o.components[j]).owner.0 == k),
        None => true,
    } by {
        if k != id.0 as int {
            match w.objects[k] {
                Some(o0) => {
                    assert(match tgt[k] {
                        Some(o) => o.id == o0.id && o.transform == o0.transform && o.components
                            == o0.components,
                        None => false,
                    });
                },
                None => {},
            }
        }
    }
}

impl GameObjectId {
    /// Whether this identifier still resolves to a live entity.
    pub fn is_alive(&self, world: &World) -> (r: bool)
        ensures
            r == live_s(world@.objects, *self),
    {
        self.0 < world.objects.len() && match &world.objects[self.0] {
            Some(_) => true,
            None => false,
        }
    }
}

/// Remove the first occurrence of an identifier from a list.
pub fn remove_first(list: &mut Vec<GameObjectId>, id: GameObjectId)
    ensures
        final(list)@ == remove_first_s(old(list)@, id),
{
    let n = list.len();
    let mut found: Option<usize> = None;
    for i in 0..n
        invariant
            n == list@.len(),
            match found {
                Some(ix) => ix < n && list@[ix as int] == id && forall|j: int|
                    0 <= j < ix ==> list@[j] != id,
                None => forall|j: int| 0 <= j < i ==> list@[j] != id,
            },
        decreases n - i,
    {
        if found.is_none() && list[i] == id {
            found = Some(i);
        }
    }
    match found {
        Some(ix) => {
            list.remove(ix);
            proof {
                lemma_remove_first_at(old(list)@, id, ix as int);
            }
        },
        None => {
            proof {
                lemma_remove_first_absent(old(list)@, id);
            }
        },
    }
}

/// Removing the first occurrence found at an index agrees with the
/// recursive definition.
proof fn lemma_remove_first_at(s: Seq<GameObjectId>, id: GameObjectId, ix: int)
    requires
        0 <= ix < s.len(),
        s[ix] == id,
        forall|j: int| 0 <= j < ix ==> s[j] != id,
    ensures
        remove_first_s(s, id) =~= s.remove(ix),
    decreases s.len(),
{
    if ix == 0 {
    } else {
        lemma_remove_first_at(s.drop_first(), id, ix - 1);
        assert(seq![s[0]] + s.drop_first().remove(ix - 1) =~= s.remove(ix));
    }
}

/// With no occurrence, removal is the identity, per the recursive
/// definition.
proof fn lemma_remove_first_absent(s: Seq<GameObjectId>, id: GameObjectId)
    requires
        forall|j: int| 0 <= j < s.len() ==> s[j] != id,
    ensures
        remove_first_s(s, id) =~= s,
    decreases s.len(),
{
    if s.len() == 0 {
    } else {
        lemma_remove_first_absent(s.drop_first(), id);
        assert(seq![s[0]] + s.drop_first() =~= s);
    }
}

} // verus!
