//! Scene-graph edges: parent/child placement and the traversal set.
//!
//! Parent-to-children is an ordered list — insertion order is traversal
//! order — and child-to-parent is a single weak reference. Attaching a
//! child unconditionally detaches it from its previous parent first, so a
//! child never appears in two lists. Removing a parent does not free its
//! children: ownership stays with the entity table.

use vstd::prelude::*;
use crate::mesh_renderer::MeshRenderer;
use crate::object::{GameObjectId, ObjV};
use crate::world::{World, WorldV, objs_wf, links_wf, live_s, obj_of_s, detach_links_s,
    detach_objects_s, destroy_s, remove_first_s, remove_first, lemma_wf_update,
    lemma_remove_first_props};

verus! {

/// Attachment at the table level: the child leaves its previous parent's
/// list, is appended to the new parent's list, and records the new parent.
pub open spec fn attach_objects_s(objs: Seq<Option<ObjV>>, p: GameObjectId, c: GameObjectId) ->
    Seq<Option<ObjV>>
    recommends
        live_s(objs, p),
        live_s(objs, c),
        p != c,
{
    let o1 = detach_objects_s(objs, c);
    let po = obj_of_s(o1, p);
    let o2 = o1.update(p.0 as int, Some(ObjV { children: po.children.push(c), ..po }));
    let co = o2[c.0 as int]->Some_0;
    o2.update(c.0 as int, Some(ObjV { parent: Some(p), ..co }))
}

/// Registration as a top-level scene member: the entity leaves its
/// previous parent's list, forgets its parent, and is appended to the
/// top-level list.
pub open spec fn make_root_s(w: WorldV, id: GameObjectId) -> WorldV
    recommends
        live_s(w.objects, id),
{
    let w1 = detach_links_s(w, id);
    let o = obj_of_s(w1.objects, id);
    WorldV {
        objects: w1.objects.update(id.0 as int, Some(ObjV { parent: None, ..o })),
        children: w1.children.push(id),
        ..w1
    }
}

impl World {
    /// Append a child under a parent, detaching it from its previous
    /// parent and from the top-level list first. Reports success; a stale
    /// identifier on either side, or identical parent and child, is a
    /// recoverable no-op.
    #[verifier::rlimit(100)]
    #[verifier::spinoff_prover]
    pub fn add_child_to(&mut self, parent_id: GameObjectId, child_id: GameObjectId) -> (ok:
        bool)
        requires
            old(self).wf(),
        ensures
            final(self).wf(),
            ok == (live_s(old(self)@.objects, parent_id) && live_s(old(self)@.objects, child_id)
                && parent_id != child_id),
            ok ==> final(self)@.objects == attach_objects_s(
                old(self)@.objects,
                parent_id,
                child_id,
            ),
            ok ==> final(self)@.children == remove_first_s(old(self)@.children, child_id),
            ok ==> final(self)@.active_camera == old(self)@.active_camera,
            ok ==> final(self)@.physics == old(self)@.physics,
            ok ==> final(self)@.input == old(self)@.input,
            ok ==> final(self)@.last_frame_nanos == old(self)@.last_frame_nanos,
            ok ==> final(self)@.delta_nanos == old(self)@.delta_nanos,
            !ok ==> final(self)@ == old(self)@,
            final(self).assets == old(self).assets,
    {
        if parent_id.0 == child_id.0 {
            return false;
        }
        if !parent_id.is_alive(self) || !child_id.is_alive(self) {
            return false;
        }
        let ghost w0 = self@;
        let child_parent: Option<GameObjectId> = match &self.objects[child_id.0] {
            Some(o) => o.parent,
            None => None,
        };
        match child_parent {
            Some(op) => {
                if op.0 != child_id.0 && op.0 < self.objects.len() {
                    self.detach_child_entry(op, child_id);
                }
            },
            None => {},
        }
        remove_first(&mut self.children, child_id);
        proof {
            assert(self@.objects == detach_objects_s(w0.objects, child_id));
            lemma_attach_objects(w0.objects, parent_id, child_id);
            lemma_links_after_attach(w0.objects, w0.children, parent_id, child_id);
        }
        self.attach_entries(parent_id, child_id);
        true
    }

    /// Register an entity as a top-level scene member, detaching it from
    /// any previous parent first. Reports success; a stale identifier is a
    /// recoverable no-op.
    #[verifier::rlimit(100)]
    pub fn add_child(&mut self, id: GameObjectId) -> (ok: bool)
        requires
            old(self).wf(),
        ensures
            final(self).wf(),
            ok == live_s(old(self)@.objects, id),
            ok ==> final(self)@ == make_root_s(old(self)@, id),
            !ok ==> final(self)@ == old(self)@,
            final(self).assets == old(self).assets,
    {
        if !id.is_alive(self) {
            return false;
        }
        let ghost w0 = self@;
        let obj_parent: Option<GameObjectId> = match &self.objects[id.0] {
            Some(o) => o.parent,
            None => None,
        };
        match obj_parent {
            Some(op) => {
                if op.0 != id.0 && op.0 < self.objects.len() {
                    self.detach_child_entry(op, id);
                }
            },
            None => {},
        }
        remove_first(&mut self.children, id);
        proof {
            assert(self@.objects =~~= detach_links_s(w0, id).objects);
        }
        let ghost w1 = detach_links_s(w0, id);
        let oo = self.objects.remove(id.0);
        match oo {
            Some(mut obj) => {
                obj.parent = None;
                self.objects.insert(id.0, Some(obj));
            },
            None => {
                self.objects.insert(id.0, None);
            },
        }
        self.children.push(id);
        proof {
            let o1 = obj_of_s(w1.objects, id);
            assert(self@.objects =~~= w1.objects.update(
                id.0 as int,
                Some(ObjV { parent: None, ..o1 }),
            ));
            assert(self@ =~~= make_root_s(w0, id));
            lemma_wf_update(w1.objects, id.0 as int, ObjV { parent: None, ..o1 });
            lemma_links_after_make_root(w0, id);
        }
        true
    }

    /// Replace an entity's drawable attachment. Reports success; a stale
    /// identifier is a recoverable no-op.
    pub fn set_drawable(&mut self, id: GameObjectId, drawable: Option<MeshRenderer>) -> (ok:
        bool)
        requires
            old(self).wf(),
        ensures
            final(self).wf(),
            ok == live_s(old(self)@.objects, id),
            ok ==> final(self)@ == (WorldV {
                objects: old(self)@.objects.update(
                    id.0 as int,
                    Some(ObjV { drawable, ..obj_of_s(old(self)@.objects, id) }),
                ),
                ..old(self)@
            }),
            !ok ==> final(self)@ == old(self)@,
            final(self).assets == old(self).assets,
    {
        if !id.is_alive(self) {
            return false;
        }
        let ghost w0 = self@;
        let oo = self.objects.remove(id.0);
        match oo {
            Some(mut obj) => {
                obj.set_drawable(drawable);
                self.objects.insert(id.0, Some(obj));
            },
            None => {
                self.objects.insert(id.0, None);
            },
        }
        proof {
            let o0 = obj_of_s(w0.objects, id);
            assert(self@.objects =~~= w0.objects.update(
                id.0 as int,
                Some(ObjV { drawable, ..o0 }),
            ));
            assert(self@ =~~= (WorldV {
                objects: w0.objects.update(id.0 as int, Some(ObjV { drawable, ..o0 })),
                ..w0
            }));
            lemma_wf_update(w0.objects, id.0 as int, ObjV { drawable, ..o0 });
        }
        true
    }
}

/// Detaching an identifier under link coherence keeps the links invariant
/// and leaves the identifier in no child list and not in the top-level
/// list; every slot keeps its presence and its parent reference.
#[verifier::rlimit(100)]
proof fn lemma_links_after_detach(objs: Seq<Option<ObjV>>, roots: Seq<GameObjectId>,
    id: GameObjectId)
    requires
        objs_wf(objs),
        links_wf(objs, roots),
        live_s(objs, id),
    ensures
        links_wf(detach_objects_s(objs, id), remove_first_s(roots, id)),
        detach_objects_s(objs, id).len() == objs.len(),
        forall|i: int|
            0 <= i < objs.len() ==> ((#[trigger] detach_objects_s(objs, id)[i]) is Some
                <==> objs[i] is Some),
        forall|i: int|
            0 <= i < objs.len() && objs[i] is Some ==> (#[trigger] detach_objects_s(
                objs,
                id,
            )[i])->Some_0.parent == objs[i]->Some_0.parent,
        forall|i: int|
            0 <= i < objs.len() && (#[trigger] detach_objects_s(objs, id)[i]) is Some
                ==> !detach_objects_s(objs, id)[i]->Some_0.children.contains(id),
        !remove_first_s(roots, id).contains(id),
{
    let d = detach_objects_s(objs, id);
    let o = obj_of_s(objs, id);
    lemma_remove_first_props(roots, id);
    assert forall|i: int| 0 <= i < d.len() && (#[trigger] d[i]) is Some
        implies !d[i]->Some_0.children.contains(id) by {
        let ow = objs[i]->Some_0;
        let rewritten = o.parent matches Some(p) && live_s(objs, p) && p != id && p.0 as int
            == i;
        if rewritten {
            assert forall|k: int, k2: int|
                0 <= k < ow.children.len() && 0 <= k2 < ow.children.len() && ow.children[k]
                    == ow.children[k2] implies k == k2 by {}
            lemma_remove_first_props(ow.children, id);
        } else {
            assert(d[i]->Some_0.children == ow.children);
            if ow.children.contains(id) {
                let k = choose|k: int| 0 <= k < ow.children.len() && ow.children[k] == id;
                assert(obj_of_s(objs, id).parent == Some(GameObjectId(i as usize)));
                assert(live_s(objs, GameObjectId(i as usize)));
                assert(GameObjectId(i as usize) != id);
            }
        }
    }
    assert forall|i: int| 0 <= i < d.len() implies match #[trigger] d[i] {
        Some(oo) => forall|k: int|
            0 <= k < oo.children.len() ==> live_s(d, #[trigger] oo.children[k]) && obj_of_s(
                d,
                oo.children[k],
            ).parent == Some(GameObjectId(i as usize)) && (forall|k2: int|
                0 <= k2 < oo.children.len() && oo.children[k2] == oo.children[k] ==> k2 == k),
        None => true,
    } by {
        match d[i] {
            Some(oo) => {
                let ow = objs[i]->Some_0;
                let rewritten = o.parent matches Some(p) && live_s(objs, p) && p != id
                    && p.0 as int == i;
                if rewritten {
                    assert forall|k: int, k2: int|
                        0 <= k < ow.children.len() && 0 <= k2 < ow.children.len()
                            && ow.children[k] == ow.children[k2] implies k == k2 by {}
                    lemma_remove_first_props(ow.children, id);
                } else {
                    assert(oo.children == ow.children);
                }
                assert forall|k: int| 0 <= k < oo.children.len() implies live_s(
                    d,
                    #[trigger] oo.children[k],
                ) && obj_of_s(d, oo.children[k]).parent == Some(GameObjectId(i as usize)) && (
                forall|k2: int|
                    0 <= k2 < oo.children.len() && oo.children[k2] == oo.children[k] ==> k2
                        == k) by {
                    let c = oo.children[k];
                    if rewritten {
                        assert(ow.children.contains(c));
                        let k0 = choose|k0: int|
                            0 <= k0 < ow.children.len() && ow.children[k0] == c;
                        assert(live_s(objs, c) && obj_of_s(objs, c).parent == Some(
                            GameObjectId(i as usize),
                        ));
                    } else {
                        assert(live_s(objs, c) && obj_of_s(objs, c).parent == Some(
                            GameObjectId(i as usize),
                        ));
                    }
                    assert(d[c.0 as int] is Some);
                    assert(obj_of_s(d, c).parent == obj_of_s(objs, c).parent);
                }
            },
            None => {},
        }
    }
    assert forall|k: int| 0 <= k < remove_first_s(roots, id).len() implies live_s(
        d,
        #[trigger] remove_first_s(roots, id)[k],
    ) && obj_of_s(d, remove_first_s(roots, id)[k]).parent is None && (forall|k2: int|
        0 <= k2 < remove_first_s(roots, id).len() && remove_first_s(roots, id)[k2]
            == remove_first_s(roots, id)[k] ==> k2 == k) by {
        let c = remove_first_s(roots, id)[k];
        assert(roots.contains(c));
        let k0 = choose|k0: int| 0 <= k0 < roots.len() && roots[k0] == c;
        assert(live_s(objs, c) && obj_of_s(objs, c).parent is None);
        assert(d[c.0 as int] is Some);
        assert(obj_of_s(d, c).parent == obj_of_s(objs, c).parent);
    }
}

/// Attachment keeps the links invariant: the child leaves every list
/// first, then joins exactly its new parent's list with the matching
/// parent reference.
#[verifier::rlimit(100)]
pub proof fn lemma_links_after_attach(objs: Seq<Option<ObjV>>, roots: Seq<GameObjectId>,
    p: GameObjectId, c: GameObjectId)
    requires
        objs_wf(objs),
        links_wf(objs, roots),
        live_s(objs, p),
        live_s(objs, c),
        p != c,
    ensures
        links_wf(attach_objects_s(objs, p, c), remove_first_s(roots, c)),
{
    lemma_links_after_detach(objs, roots, c);
    let o1 = detach_objects_s(objs, c);
    let roots1 = remove_first_s(roots, c);
    let po = obj_of_s(o1, p);
    let o2 = o1.update(p.0 as int, Some(ObjV { children: po.children.push(c), ..po }));
    let co = o2[c.0 as int]->Some_0;
    let o3 = o2.update(c.0 as int, Some(ObjV { parent: Some(p), ..co }));
    assert(attach_objects_s(objs, p, c) == o3);
    assert forall|i: int| 0 <= i < o3.len() && (#[trigger] o3[i]) is Some
        implies o3[i]->Some_0.parent != Some(GameObjectId(i as usize)) by {
        if i == c.0 as int {
        } else {
            assert(o3[i]->Some_0.parent == o1[i]->Some_0.parent);
        }
    }
    assert forall|i: int| 0 <= i < o3.len() implies match #[trigger] o3[i] {
        Some(oo) => forall|k: int|
            0 <= k < oo.children.len() ==> live_s(o3, #[trigger] oo.children[k]) && obj_of_s(
                o3,
                oo.children[k],
            ).parent == Some(GameObjectId(i as usize)) && (forall|k2: int|
                0 <= k2 < oo.children.len() && oo.children[k2] == oo.children[k] ==> k2 == k),
        None => true,
    } by {
        match o3[i] {
            Some(oo) => {
                let o1o = o1[i]->Some_0;
                assert forall|k: int| 0 <= k < oo.children.len() implies live_s(
                    o3,
                    #[trigger] oo.children[k],
                ) && obj_of_s(o3, oo.children[k]).parent == Some(GameObjectId(i as usize))
                    && (forall|k2: int|
                    0 <= k2 < oo.children.len() && oo.children[k2] == oo.children[k] ==> k2
                        == k) by {
                    let m = oo.children[k];
                    if i == p.0 as int && k == po.children.len() as int {
                        assert(m == c);
                        assert(o3[c.0 as int] is Some);
                        assert(obj_of_s(o3, c).parent == Some(p));
                    } else {
                        assert(oo.children[k] == o1o.children[k]);
                        assert(live_s(o1, m) && obj_of_s(o1, m).parent == Some(
                            GameObjectId(i as usize),
                        ));
                        assert(m != c);
                        assert(o3[m.0 as int] is Some);
                        assert(obj_of_s(o3, m).parent == obj_of_s(o1, m).parent);
                    }
                    if i == p.0 as int {
                        assert forall|k2: int|
                            0 <= k2 < oo.children.len() && oo.children[k2]
                                == oo.children[k] implies k2 == k by {
                            if k2 != k {
                                if k == po.children.len() as int {
                                    assert(oo.children[k2] == o1o.children[k2]);
                                    assert(o1o.children.contains(c)) by {
                                        assert(o1o.children[k2] == c);
                                    }
                                } else if k2 == po.children.len() as int {
                                    assert(oo.children[k] == o1o.children[k]);
                                    assert(o1o.children.contains(c)) by {
                                        assert(o1o.children[k] == c);
                                    }
                                } else {
                                    assert(oo.children[k] == o1o.children[k]);
                                    assert(oo.children[k2] == o1o.children[k2]);
                                }
                            }
                        }
                    }
                }
            },
            None => {},
        }
    }
    assert forall|k: int| 0 <= k < roots1.len() implies live_s(o3, #[trigger] roots1[k])
        && obj_of_s(o3, roots1[k]).parent is None && (forall|k2: int|
        0 <= k2 < roots1.len() && roots1[k2] == roots1[k] ==> k2 == k) by {
        let r = roots1[k];
        assert(live_s(o1, r) && obj_of_s(o1, r).parent is None);
        assert(r != c) by {
            if r == c {
                assert(roots1.contains(c)) by {
                    assert(roots1[k] == c);
                }
            }
        }
        assert(o3[r.0 as int] is Some);
        assert(obj_of_s(o3, r).parent == obj_of_s(o1, r).parent);
    }
}

/// Registration as a top-level member keeps the links invariant: the
/// entity leaves every list first, then joins only the top-level list
/// with no parent recorded.
#[verifier::rlimit(100)]
pub proof fn lemma_links_after_make_root(w: WorldV, id: GameObjectId)
    requires
        objs_wf(w.objects),
        links_wf(w.objects, w.children),
        live_s(w.objects, id),
    ensures
        links_wf(make_root_s(w, id).objects, make_root_s(w, id).children),
{
    lemma_links_after_detach(w.objects, w.children, id);
    let o1 = detach_objects_s(w.objects, id);
    let roots1 = remove_first_s(w.children, id);
    let o = obj_of_s(o1, id);
    let objs2 = o1.update(id.0 as int, Some(ObjV { parent: None, ..o }));
    let roots2 = roots1.push(id);
    assert(make_root_s(w, id).objects == objs2);
    assert(make_root_s(w, id).children == roots2);
    assert forall|i: int| 0 <= i < objs2.len() implies match #[trigger] objs2[i] {
        Some(oo) => forall|k: int|
            0 <= k < oo.children.len() ==> live_s(objs2, #[trigger] oo.children[k])
                && obj_of_s(objs2, oo.children[k]).parent == Some(GameObjectId(i as usize))
                && (forall|k2: int|
                0 <= k2 < oo.children.len() && oo.children[k2] == oo.children[k] ==> k2 == k),
        None => true,
    } by {
        match objs2[i] {
            Some(oo) => {
                assert(oo.children == o1[i]->Some_0.children);
                assert forall|k: int| 0 <= k < oo.children.len() implies live_s(
                    objs2,
                    #[trigger] oo.children[k],
                ) && obj_of_s(objs2, oo.children[k]).parent == Some(GameObjectId(i as usize))
                    && (forall|k2: int|
                    0 <= k2 < oo.children.len() && oo.children[k2] == oo.children[k] ==> k2
                        == k) by {
                    let m = oo.children[k];
                    assert(live_s(o1, m) && obj_of_s(o1, m).parent == Some(
                        GameObjectId(i as usize),
                    ));
                    assert(m != id);
                    assert(objs2[m.0 as int] is Some);
                    assert(obj_of_s(objs2, m).parent == obj_of_s(o1, m).parent);
                }
            },
            None => {},
        }
    }
    assert forall|k: int| 0 <= k < roots2.len() implies live_s(objs2, #[trigger] roots2[k])
        && obj_of_s(objs2, roots2[k]).parent is None && (forall|k2: int|
        0 <= k2 < roots2.len() && roots2[k2] == roots2[k] ==> k2 == k) by {
        let r = roots2[k];
        if k == roots1.len() as int {
            assert(r == id);
            assert(objs2[id.0 as int] is Some);
            assert(obj_of_s(objs2, id).parent is None);
            assert forall|k2: int|
                0 <= k2 < roots2.len() && roots2[k2] == roots2[k] implies k2 == k by {
                if k2 != k {
                    assert(roots2[k2] == roots1[k2]);
                    assert(roots1.contains(id)) by {
                        assert(roots1[k2] == id);
                    }
                }
            }
        } else {
            assert(r == roots1[k]);
            assert(live_s(o1, r) && obj_of_s(o1, r).parent is None);
            assert(r != id) by {
                if r == id {
                    assert(roots1.contains(id)) by {
                        assert(roots1[k] == id);
                    }
                }
            }
            assert(objs2[r.0 as int] is Some);
            assert(obj_of_s(objs2, r).parent == obj_of_s(o1, r).parent);
            assert forall|k2: int|
                0 <= k2 < roots2.len() && roots2[k2] == roots2[k] implies k2 == k by {
                if k2 != k {
                    if k2 == roots1.len() as int {
                        assert(roots1.contains(id)) by {
                            assert(roots1[k] == id);
                        }
                    } else {
                        assert(roots2[k2] == roots1[k2]);
                    }
                }
            }
        }
    }
}

/// Unfold one attachment into its three slot operations — the detach, the
/// child-list append on the parent, the parent reference on the child —
/// and show the result well-formed, with both touched slots live along the
/// way.
#[verifier::rlimit(100)]
proof fn lemma_attach_objects(objs: Seq<Option<ObjV>>, p: GameObjectId, c: GameObjectId)
    requires
        objs_wf(objs),
        live_s(objs, p),
        live_s(objs, c),
        p != c,
    ensures
        ({
            let o1 = detach_objects_s(objs, c);
            let po = obj_of_s(o1, p);
            let o2 = o1.update(p.0 as int, Some(ObjV { children: po.children.push(c), ..po }));
            let co = o2[c.0 as int]->Some_0;
            o1.len() == objs.len() && o1[p.0 as int] is Some && o2[c.0 as int] is Some
                && attach_objects_s(objs, p, c) == o2.update(
                c.0 as int,
                Some(ObjV { parent: Some(p), ..co }),
            ) && objs_wf(attach_objects_s(objs, p, c))
        }),
{
    let o1 = detach_objects_s(objs, c);
    let c0 = obj_of_s(objs, c);
    assert(objs_wf(o1)) by {
        match c0.parent {
            Some(pp) => {
                if live_s(objs, pp) && pp != c {
                    let po = obj_of_s(objs, pp);
                    lemma_wf_update(
                        objs,
                        pp.0 as int,
                        ObjV { children: remove_first_s(po.children, c), ..po },
                    );
                }
            },
            None => {},
        }
    }
    let po = obj_of_s(o1, p);
    let o2 = o1.update(p.0 as int, Some(ObjV { children: po.children.push(c), ..po }));
    lemma_wf_update(o1, p.0 as int, ObjV { children: po.children.push(c), ..po });
    let co = o2[c.0 as int]->Some_0;
    lemma_wf_update(o2, c.0 as int, ObjV { parent: Some(p), ..co });
}

/// Identifier liveness: after destruction an identifier no longer
/// resolves.
#[verifier::rlimit(100)]
#[verifier::spinoff_prover]
pub proof fn lemma_destroy_identifier_liveness(w: WorldV, id: GameObjectId)
    requires
        objs_wf(w.objects),
        live_s(w.objects, id),
    ensures
        !live_s(destroy_s(w, id).objects, id),
{
}

/// Destruction spares the rest of the table: every other identifier is
/// live afterwards exactly when it was live before.
pub proof fn lemma_destroy_spares_others(w: WorldV, id: GameObjectId)
    requires
        objs_wf(w.objects),
        live_s(w.objects, id),
    ensures
        destroy_s(w, id).objects.len() == w.objects.len(),
        forall|k: int|
            0 <= k < w.objects.len() && k != id.0 as int ==> ((#[trigger] destroy_s(
                w,
                id,
            ).objects[k]) is Some <==> w.objects[k] is Some),
{
}

/// After destruction, the former parent's child list is exactly the old
/// list with the one occurrence removed, and it holds the destroyed
/// identifier no longer — the links invariant bounds every occurrence to
/// one.
#[verifier::rlimit(100)]
pub proof fn lemma_destroy_parent_children(w: WorldV, id: GameObjectId)
    requires
        objs_wf(w.objects),
        links_wf(w.objects, w.children),
        live_s(w.objects, id),
    ensures
        match obj_of_s(w.objects, id).parent {
            Some(p) => (live_s(w.objects, p) && p != id) ==> {
                let old_children = obj_of_s(w.objects, p).children;
                obj_of_s(destroy_s(w, id).objects, p).children == remove_first_s(
                    old_children,
                    id,
                ) && !remove_first_s(old_children, id).contains(id)
            },
            None => true,
        },
{
    match obj_of_s(w.objects, id).parent {
        Some(p) => {
            if live_s(w.objects, p) && p != id {
                let old_children = obj_of_s(w.objects, p).children;
                assert forall|j: int, k: int|
                    0 <= j < old_children.len() && 0 <= k < old_children.len()
                        && old_children[j] == old_children[k] implies j == k by {}
                lemma_remove_first_props(old_children, id);
            }
        },
        None => {},
    }
}

/// After destruction, no child list of any surviving entity holds the
/// destroyed identifier, and neither does the top-level list: the links
/// invariant admits only live members, and the identifier is live no
/// longer.
pub proof fn lemma_destroy_unlinks_fully(w: WorldV, id: GameObjectId)
    requires
        objs_wf(w.objects),
        links_wf(w.objects, w.children),
        live_s(w.objects, id),
    ensures
        forall|i: int|
            0 <= i < destroy_s(w, id).objects.len() && (#[trigger] destroy_s(
                w,
                id,
            ).objects[i]) is Some ==> !destroy_s(w, id).objects[i]->Some_0.children.contains(
                id,
            ),
        !destroy_s(w, id).children.contains(id),
{
    crate::world::lemma_links_after_destroy(w, id);
    let d = destroy_s(w, id);
    assert(!live_s(d.objects, id));
    assert forall|i: int|
        0 <= i < d.objects.len() && (#[trigger] d.objects[i]) is Some
        implies !d.objects[i]->Some_0.children.contains(id) by {
        if d.objects[i]->Some_0.children.contains(id) {
            let oo = d.objects[i]->Some_0;
            let k = choose|k: int| 0 <= k < oo.children.len() && oo.children[k] == id;
            assert(live_s(d.objects, oo.children[k]));
        }
    }
    assert(!d.children.contains(id)) by {
        if d.children.contains(id) {
            let k = choose|k: int| 0 <= k < d.children.len() && d.children[k] == id;
            assert(live_s(d.objects, d.children[k]));
        }
    }
}

} // verus!
