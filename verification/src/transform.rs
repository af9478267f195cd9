//! Per-entity local spatial state: position, rotation, scale, and the
//! eagerly recomputed cached matrices.
//!
//! The combined local matrix is always `translation * rotation * scale`, or
//! `rotation * translation * scale` when the position-first flag is cleared
//! (cameras clear it). The invert-position flag negates the translation when
//! composing, so a camera's world movement appears as an inverse translation
//! of the scene in view space. Well-formedness (`Transform::wf`) states that
//! every cached matrix equals the matrix recomputed from the local state;
//! every setter recomputes eagerly, so queries never observe a stale matrix.

use vstd::prelude::*;
use crate::algebra::{Vec3, Quat, Mat4, vec3_zero_s, vec3_one_s, vec3_neg_s, vec3_add_s,
    quat_identity_s, quat_mul_s, quat_conj_s, quat_rotate_s, mat4_translation_s, mat4_scale_s,
    mat4_rotation_s, mat4_mul_s};
use crate::fx::{Fx, FX_ONE};

verus! {

/// Local spatial state plus cached derived matrices.
#[derive(Debug, Clone, Copy, PartialEq, Eq, Structural)]
pub struct Transform {
    /// Local position.
    pub pos: Vec3,
    /// Local rotation.
    pub rot: Quat,
    /// Local non-uniform scale.
    pub scale: Vec3,
    /// Cached translation matrix of the effective (possibly negated)
    /// position.
    pub pos_mat: Mat4,
    /// Cached scale matrix.
    pub scale_mat: Mat4,
    /// Cached combined local matrix.
    pub compound_mat: Mat4,
    /// Negate the translation when composing (cameras only).
    pub invert_position: bool,
    /// Compose translation before rotation (cleared for cameras).
    pub compound_pos_first: bool,
}

/// The translation actually composed: the local position, negated when the
/// invert-position flag is set.
pub open spec fn eff_pos_s(t: Transform) -> Vec3 {
    if t.invert_position {
        vec3_neg_s(t.pos)
    } else {
        t.pos
    }
}

/// The combined local matrix recomputed from the local state: translation,
/// rotation and scale composed in the configured order.
#[verifier::opaque]
pub open spec fn local_compound_s(t: Transform) -> Mat4 {
    if t.compound_pos_first {
        mat4_mul_s(
            mat4_mul_s(mat4_translation_s(eff_pos_s(t)), mat4_rotation_s(t.rot)),
            mat4_scale_s(t.scale),
        )
    } else {
        mat4_mul_s(
            mat4_mul_s(mat4_rotation_s(t.rot), mat4_translation_s(eff_pos_s(t))),
            mat4_scale_s(t.scale),
        )
    }
}

/// The transform with every cached matrix recomputed from its local state.
#[verifier::opaque]
pub open spec fn with_caches_s(t: Transform) -> Transform {
    Transform {
        pos_mat: mat4_translation_s(eff_pos_s(t)),
        scale_mat: mat4_scale_s(t.scale),
        compound_mat: local_compound_s(t),
        ..t
    }
}

/// The default transform: origin, identity rotation, unit scale, position
/// composed first, with consistent caches.
pub open spec fn transform_default_s() -> Transform {
    with_caches_s(
        Transform {
            pos: vec3_zero_s(),
            rot: quat_identity_s(),
            scale: vec3_one_s(),
            pos_mat: mat4_translation_s(vec3_zero_s()),
            scale_mat: mat4_scale_s(vec3_one_s()),
            compound_mat: mat4_translation_s(vec3_zero_s()),
            invert_position: false,
            compound_pos_first: true,
        },
    )
}

/// Recomputing the caches yields a well-formed transform: recomputation is
/// idempotent, because the cached matrices depend only on the local state,
/// which recomputation keeps.
pub proof fn lemma_with_caches_wf(t: Transform)
    ensures
        with_caches_s(t).wf(),
{
    reveal(with_caches_s);
    reveal(local_compound_s);
}

/// A well-formed transform's cached matrices are the recomputed ones.
pub proof fn lemma_wf_caches(t: Transform)
    requires
        t.wf(),
    ensures
        t.compound_mat == local_compound_s(t),
        t.pos_mat == mat4_translation_s(eff_pos_s(t)),
        t.scale_mat == mat4_scale_s(t.scale),
{
    reveal(with_caches_s);
}

impl Transform {
    /// The caches are exactly what recomputation from the local state gives.
    pub open spec fn wf(self) -> bool {
        self == with_caches_s(self)
    }

    /// The default transform: origin, identity rotation, unit scale,
    /// position composed first.
    pub fn new() -> (r: Transform)
        ensures
            r == transform_default_s(),
            r.wf(),
    {
        let mut t = Transform {
            pos: Vec3::zero(),
            rot: Quat::identity(),
            scale: Vec3::one(),
            pos_mat: Mat4::identity(),
            scale_mat: Mat4::identity(),
            compound_mat: Mat4::identity(),
            invert_position: false,
            compound_pos_first: true,
        };
        t.regenerate_matrices();
        proof {
            lemma_with_caches_wf(
                Transform {
                    pos: vec3_zero_s(),
                    rot: quat_identity_s(),
                    scale: vec3_one_s(),
                    pos_mat: mat4_translation_s(vec3_zero_s()),
                    scale_mat: mat4_scale_s(vec3_one_s()),
                    compound_mat: mat4_translation_s(vec3_zero_s()),
                    invert_position: false,
                    compound_pos_first: true,
                },
            );
        }
        t
    }

    /// Recompute every cached matrix from the local state.
    pub fn regenerate_matrices(&mut self)
        ensures
            *final(self) == with_caches_s(*old(self)),
    {
        let eff = if self.invert_position {
            self.pos.neg()
        } else {
            self.pos
        };
        self.pos_mat = Mat4::translation(&eff);
        self.scale_mat = Mat4::scaling(&self.scale);
        let rot_mat = Mat4::rotation(&self.rot);
        if self.compound_pos_first {
            self.compound_mat = self.pos_mat.mul(&rot_mat).mul(&self.scale_mat);
        } else {
            self.compound_mat = rot_mat.mul(&self.pos_mat).mul(&self.scale_mat);
        }
        proof {
            reveal(with_caches_s);
            reveal(local_compound_s);
        }
    }

    /// Replace the local position; caches are recomputed eagerly.
    pub fn set_local_position(&mut self, position: Vec3)
        ensures
            *final(self) == with_caches_s(Transform { pos: position, ..*old(self) }),
            final(self).wf(),
    {
        self.pos = position;
        self.regenerate_matrices();
        proof {
            lemma_with_caches_wf(Transform { pos: position, ..*old(self) });
        }
    }

    /// The local position.
    pub fn local_position(&self) -> (r: Vec3)
        ensures
            r == self.pos,
    {
        self.pos
    }

    /// Compose a translation onto the local position.
    pub fn translate(&mut self, delta: Vec3)
        ensures
            *final(self) == with_caches_s(
                Transform { pos: vec3_add_s(old(self).pos, delta), ..*old(self) },
            ),
            final(self).wf(),
    {
        self.pos = self.pos.add(&delta);
        self.regenerate_matrices();
        proof {
            lemma_with_caches_wf(Transform { pos: vec3_add_s(old(self).pos, delta), ..*old(self) });
        }
    }

    /// Replace the local rotation; caches are recomputed eagerly.
    pub fn set_local_rotation(&mut self, rotation: Quat)
        ensures
            *final(self) == with_caches_s(Transform { rot: rotation, ..*old(self) }),
            final(self).wf(),
    {
        self.rot = rotation;
        self.regenerate_matrices();
        proof {
            lemma_with_caches_wf(Transform { rot: rotation, ..*old(self) });
        }
    }

    /// The local rotation.
    pub fn local_rotation(&self) -> (r: Quat)
        ensures
            r == self.rot,
    {
        self.rot
    }

    /// Compose a rotation onto the local rotation (quaternion product, not
    /// angle addition).
    pub fn rotate(&mut self, rot: Quat)
        ensures
            *final(self) == with_caches_s(
                Transform { rot: quat_mul_s(old(self).rot, rot), ..*old(self) },
            ),
            final(self).wf(),
    {
        self.rot = self.rot.mul(&rot);
        self.regenerate_matrices();
        proof {
            lemma_with_caches_wf(Transform { rot: quat_mul_s(old(self).rot, rot), ..*old(self) });
        }
    }

    /// Replace the local non-uniform scale; caches are recomputed eagerly.
    pub fn set_nonuniform_local_scale(&mut self, scale: Vec3)
        ensures
            *final(self) == with_caches_s(Transform { scale: scale, ..*old(self) }),
            final(self).wf(),
    {
        self.scale = scale;
        self.regenerate_matrices();
        proof {
            lemma_with_caches_wf(Transform { scale: scale, ..*old(self) });
        }
    }

    /// Replace the local scale with a uniform factor.
    pub fn set_uniform_local_scale(&mut self, factor: Fx)
        ensures
            *final(self) == with_caches_s(
                Transform { scale: Vec3 { x: factor, y: factor, z: factor }, ..*old(self) },
            ),
            final(self).wf(),
    {
        self.set_nonuniform_local_scale(Vec3 { x: factor, y: factor, z: factor });
    }

    /// The local scale.
    pub fn local_scale(&self) -> (r: Vec3)
        ensures
            r == self.scale,
    {
        self.scale
    }

    /// Toggle the camera-only translation sign flip; caches are recomputed
    /// eagerly so queries never observe a stale matrix.
    pub fn set_invert_position(&mut self, invert: bool)
        ensures
            *final(self) == with_caches_s(
                Transform { invert_position: invert, ..*old(self) },
            ),
            final(self).wf(),
    {
        self.invert_position = invert;
        self.regenerate_matrices();
        proof {
            lemma_with_caches_wf(Transform { invert_position: invert, ..*old(self) });
        }
    }

    /// Choose the composition order of translation and rotation; caches are
    /// recomputed eagerly.
    pub fn set_compound_pos_first(&mut self, state: bool)
        ensures
            *final(self) == with_caches_s(
                Transform { compound_pos_first: state, ..*old(self) },
            ),
            final(self).wf(),
    {
        self.compound_pos_first = state;
        self.regenerate_matrices();
        proof {
            lemma_with_caches_wf(Transform { compound_pos_first: state, ..*old(self) });
        }
    }

    /// The combined local matrix.
    pub fn full_matrix(&self) -> (r: Mat4)
        requires
            self.wf(),
        ensures
            r == local_compound_s(*self),
    {
        proof {
            lemma_wf_caches(*self);
        }
        self.compound_mat
    }

    /// The local forward direction: negative z rotated by the inverse local
    /// rotation.
    pub fn forward(&self) -> (r: Vec3)
        ensures
            r == quat_rotate_s(quat_conj_s(self.rot), Vec3 { x: 0, y: 0, z: -65536i64 }),
    {
        self.rot.conj().rotate(&Vec3 { x: 0, y: 0, z: -65536i64 })
    }

    /// The local right direction: positive x rotated by the inverse local
    /// rotation.
    pub fn right(&self) -> (r: Vec3)
        ensures
            r == quat_rotate_s(quat_conj_s(self.rot), Vec3 { x: FX_ONE, y: 0, z: 0 }),
    {
        self.rot.conj().rotate(&Vec3 { x: FX_ONE, y: 0, z: 0 })
    }

    /// The local up direction: positive y rotated by the inverse local
    /// rotation.
    pub fn up(&self) -> (r: Vec3)
        ensures
            r == quat_rotate_s(quat_conj_s(self.rot), Vec3 { x: 0, y: FX_ONE, z: 0 }),
    {
        self.rot.conj().rotate(&Vec3 { x: 0, y: FX_ONE, z: 0 })
    }
}

/// Composition-order law: a well-formed transform's combined local matrix is
/// exactly the product of its translation, rotation and scale matrices —
/// translation first, or rotation first when the position-first flag is
/// cleared — with the translation negated under the invert-position flag.
pub proof fn lemma_compound_composition(t: Transform)
    requires
        t.wf(),
    ensures
        t.compound_pos_first ==> t.compound_mat == mat4_mul_s(
            mat4_mul_s(mat4_translation_s(eff_pos_s(t)), mat4_rotation_s(t.rot)),
            mat4_scale_s(t.scale),
        ),
        !t.compound_pos_first ==> t.compound_mat == mat4_mul_s(
            mat4_mul_s(mat4_rotation_s(t.rot), mat4_translation_s(eff_pos_s(t))),
            mat4_scale_s(t.scale),
        ),
{
    reveal(local_compound_s);
    lemma_wf_caches(t);
}

} // verus!
