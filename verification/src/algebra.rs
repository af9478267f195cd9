//! Exact linear algebra over fixed-point scalars: vectors, quaternions and
//! homogeneous 4x4 matrices.
//!
//! Every executable operation returns precisely the value of its spec-level
//! counterpart, so matrix and quaternion composition is an exact function of
//! the operands — the transform layer states its composition-order law over
//! these spec functions.

use vstd::prelude::*;
use crate::fx::{Fx, FX_ONE, fx_add_s, fx_sub_s, fx_neg_s, fx_mul_s, fx_div_s, fx_add, fx_sub,
    fx_neg, fx_mul, fx_div};

verus! {

/// The fixed-point representation of 2.
pub const FX_TWO: i64 = 131072;

/// Saturating add, closed over `i64`.
pub open spec fn fadd(a: i64, b: i64) -> i64 {
    fx_add_s(a as int, b as int) as i64
}

/// Saturating subtract, closed over `i64`.
pub open spec fn fsub(a: i64, b: i64) -> i64 {
    fx_sub_s(a as int, b as int) as i64
}

/// Saturating negate, closed over `i64`.
pub open spec fn fneg(a: i64) -> i64 {
    fx_neg_s(a as int) as i64
}

/// Saturating rescaled multiply, closed over `i64`.
pub open spec fn fmul(a: i64, b: i64) -> i64 {
    fx_mul_s(a as int, b as int) as i64
}

/// Saturating rescaled divide, closed over `i64`.
pub open spec fn fdiv(a: i64, b: i64) -> i64 {
    fx_div_s(a as int, b as int) as i64
}

/// A two-component fixed-point vector.
#[derive(Debug, Clone, Copy, PartialEq, Eq, Structural)]
pub struct Vec2 {
    pub x: Fx,
    pub y: Fx,
}

/// The zero two-component vector.
pub open spec fn vec2_zero_s() -> Vec2 {
    Vec2 { x: 0, y: 0 }
}

/// Componentwise two-component sum.
pub open spec fn vec2_add_s(a: Vec2, b: Vec2) -> Vec2 {
    Vec2 { x: fadd(a.x, b.x), y: fadd(a.y, b.y) }
}

/// Componentwise two-component difference.
pub open spec fn vec2_sub_s(a: Vec2, b: Vec2) -> Vec2 {
    Vec2 { x: fsub(a.x, b.x), y: fsub(a.y, b.y) }
}

impl Vec2 {
    /// The zero vector.
    pub fn zero() -> (r: Vec2)
        ensures
            r == vec2_zero_s(),
    {
        Vec2 { x: 0, y: 0 }
    }

    /// Componentwise sum.
    pub fn add(&self, o: &Vec2) -> (r: Vec2)
        ensures
            r == vec2_add_s(*self, *o),
    {
        Vec2 { x: fx_add(self.x, o.x), y: fx_add(self.y, o.y) }
    }

    /// Componentwise difference.
    pub fn sub(&self, o: &Vec2) -> (r: Vec2)
        ensures
            r == vec2_sub_s(*self, *o),
    {
        Vec2 { x: fx_sub(self.x, o.x), y: fx_sub(self.y, o.y) }
    }
}

/// A three-component fixed-point vector.
#[derive(Debug, Clone, Copy, PartialEq, Eq, Structural)]
pub struct Vec3 {
    pub x: Fx,
    pub y: Fx,
    pub z: Fx,
}

/// A fixed-point quaternion, `w` the scalar part.
#[derive(Debug, Clone, Copy, PartialEq, Eq, Structural)]
pub struct Quat {
    pub w: Fx,
    pub x: Fx,
    pub y: Fx,
    pub z: Fx,
}

/// A 4x4 fixed-point matrix, row-major field names `mRC`; vectors compose as
/// columns, so translation lives in column 3.
#[derive(Debug, Clone, Copy, PartialEq, Eq, Structural)]
pub struct Mat4 {
    pub m00: Fx, pub m01: Fx, pub m02: Fx, pub m03: Fx,
    pub m10: Fx, pub m11: Fx, pub m12: Fx, pub m13: Fx,
    pub m20: Fx, pub m21: Fx, pub m22: Fx, pub m23: Fx,
    pub m30: Fx, pub m31: Fx, pub m32: Fx, pub m33: Fx,
}

/// The zero vector.
pub open spec fn vec3_zero_s() -> Vec3 {
    Vec3 { x: 0, y: 0, z: 0 }
}

/// The all-ones vector (the default scale).
pub open spec fn vec3_one_s() -> Vec3 {
    Vec3 { x: FX_ONE, y: FX_ONE, z: FX_ONE }
}

/// Componentwise vector sum.
pub open spec fn vec3_add_s(a: Vec3, b: Vec3) -> Vec3 {
    Vec3 { x: fadd(a.x, b.x), y: fadd(a.y, b.y), z: fadd(a.z, b.z) }
}

/// Componentwise vector difference.
pub open spec fn vec3_sub_s(a: Vec3, b: Vec3) -> Vec3 {
    Vec3 { x: fsub(a.x, b.x), y: fsub(a.y, b.y), z: fsub(a.z, b.z) }
}

/// Componentwise negation.
pub open spec fn vec3_neg_s(a: Vec3) -> Vec3 {
    Vec3 { x: fneg(a.x), y: fneg(a.y), z: fneg(a.z) }
}

/// Componentwise (Hadamard) product.
pub open spec fn vec3_comp_mul_s(a: Vec3, b: Vec3) -> Vec3 {
    Vec3 { x: fmul(a.x, b.x), y: fmul(a.y, b.y), z: fmul(a.z, b.z) }
}

/// Componentwise quotient; a zero component divides to zero.
pub open spec fn vec3_comp_div_s(a: Vec3, b: Vec3) -> Vec3 {
    Vec3 { x: fdiv(a.x, b.x), y: fdiv(a.y, b.y), z: fdiv(a.z, b.z) }
}

/// Vector scaled by a scalar.
pub open spec fn vec3_scale_s(a: Vec3, s: Fx) -> Vec3 {
    Vec3 { x: fmul(a.x, s), y: fmul(a.y, s), z: fmul(a.z, s) }
}

/// Cross product.
pub open spec fn vec3_cross_s(a: Vec3, b: Vec3) -> Vec3 {
    Vec3 {
        x: fsub(fmul(a.y, b.z), fmul(a.z, b.y)),
        y: fsub(fmul(a.z, b.x), fmul(a.x, b.z)),
        z: fsub(fmul(a.x, b.y), fmul(a.y, b.x)),
    }
}

/// The identity quaternion.
pub open spec fn quat_identity_s() -> Quat {
    Quat { w: FX_ONE, x: 0, y: 0, z: 0 }
}

/// Hamilton product of two quaternions.
#[verifier::opaque]
pub open spec fn quat_mul_s(a: Quat, b: Quat) -> Quat {
    Quat {
        w: fsub(fsub(fsub(fmul(a.w, b.w), fmul(a.x, b.x)), fmul(a.y, b.y)), fmul(a.z, b.z)),
        x: fsub(fadd(fadd(fmul(a.w, b.x), fmul(a.x, b.w)), fmul(a.y, b.z)), fmul(a.z, b.y)),
        y: fadd(fadd(fsub(fmul(a.w, b.y), fmul(a.x, b.z)), fmul(a.y, b.w)), fmul(a.z, b.x)),
        z: fadd(fsub(fadd(fmul(a.w, b.z), fmul(a.x, b.y)), fmul(a.y, b.x)), fmul(a.z, b.w)),
    }
}

/// Conjugate; for a unit quaternion this is its inverse rotation.
pub open spec fn quat_conj_s(a: Quat) -> Quat {
    Quat { w: a.w, x: fneg(a.x), y: fneg(a.y), z: fneg(a.z) }
}

/// Vector part of a quaternion.
pub open spec fn quat_vec_s(a: Quat) -> Vec3 {
    Vec3 { x: a.x, y: a.y, z: a.z }
}

/// Rotation of a vector by a quaternion: `v + w*t + qv x t` with
/// `t = 2 (qv x v)`.
pub open spec fn quat_rotate_s(q: Quat, v: Vec3) -> Vec3 {
    let t = vec3_scale_s(vec3_cross_s(quat_vec_s(q), v), FX_TWO);
    vec3_add_s(vec3_add_s(v, vec3_scale_s(t, q.w)), vec3_cross_s(quat_vec_s(q), t))
}

/// The identity matrix.
pub open spec fn mat4_identity_s() -> Mat4 {
    Mat4 {
        m00: FX_ONE, m01: 0, m02: 0, m03: 0,
        m10: 0, m11: FX_ONE, m12: 0, m13: 0,
        m20: 0, m21: 0, m22: FX_ONE, m23: 0,
        m30: 0, m31: 0, m32: 0, m33: FX_ONE,
    }
}

/// Homogeneous translation matrix.
pub open spec fn mat4_translation_s(p: Vec3) -> Mat4 {
    Mat4 {
        m00: FX_ONE, m01: 0, m02: 0, m03: p.x,
        m10: 0, m11: FX_ONE, m12: 0, m13: p.y,
        m20: 0, m21: 0, m22: FX_ONE, m23: p.z,
        m30: 0, m31: 0, m32: 0, m33: FX_ONE,
    }
}

/// Homogeneous non-uniform scale matrix.
pub open spec fn mat4_scale_s(s: Vec3) -> Mat4 {
    Mat4 {
        m00: s.x, m01: 0, m02: 0, m03: 0,
        m10: 0, m11: s.y, m12: 0, m13: 0,
        m20: 0, m21: 0, m22: s.z, m23: 0,
        m30: 0, m31: 0, m32: 0, m33: FX_ONE,
    }
}

/// Homogeneous rotation matrix of a quaternion.
pub open spec fn mat4_rotation_s(q: Quat) -> Mat4 {
    Mat4 {
        m00: fsub(FX_ONE, fmul(FX_TWO, fadd(fmul(q.y, q.y), fmul(q.z, q.z)))),
        m01: fmul(FX_TWO, fsub(fmul(q.x, q.y), fmul(q.w, q.z))),
        m02: fmul(FX_TWO, fadd(fmul(q.x, q.z), fmul(q.w, q.y))),
        m03: 0,
        m10: fmul(FX_TWO, fadd(fmul(q.x, q.y), fmul(q.w, q.z))),
        m11: fsub(FX_ONE, fmul(FX_TWO, fadd(fmul(q.x, q.x), fmul(q.z, q.z)))),
        m12: fmul(FX_TWO, fsub(fmul(q.y, q.z), fmul(q.w, q.x))),
        m13: 0,
        m20: fmul(FX_TWO, fsub(fmul(q.x, q.z), fmul(q.w, q.y))),
        m21: fmul(FX_TWO, fadd(fmul(q.y, q.z), fmul(q.w, q.x))),
        m22: fsub(FX_ONE, fmul(FX_TWO, fadd(fmul(q.x, q.x), fmul(q.y, q.y)))),
        m23: 0,
        m30: 0, m31: 0, m32: 0, m33: FX_ONE,
    }
}

/// Four-term inner product, additions associated left to right.
pub open spec fn dot4_s(a0: i64, a1: i64, a2: i64, a3: i64, b0: i64, b1: i64, b2: i64,
    b3: i64) -> i64 {
    fadd(fadd(fadd(fmul(a0, b0), fmul(a1, b1)), fmul(a2, b2)), fmul(a3, b3))
}

/// Matrix product, each entry a `dot4_s` of a row with a column.
#[verifier::opaque]
pub open spec fn mat4_mul_s(a: Mat4, b: Mat4) -> Mat4 {
    Mat4 {
        m00: dot4_s(a.m00, a.m01, a.m02, a.m03, b.m00, b.m10, b.m20, b.m30),
        m01: dot4_s(a.m00, a.m01, a.m02, a.m03, b.m01, b.m11, b.m21, b.m31),
        m02: dot4_s(a.m00, a.m01, a.m02, a.m03, b.m02, b.m12, b.m22, b.m32),
        m03: dot4_s(a.m00, a.m01, a.m02, a.m03, b.m03, b.m13, b.m23, b.m33),
        m10: dot4_s(a.m10, a.m11, a.m12, a.m13, b.m00, b.m10, b.m20, b.m30),
        m11: dot4_s(a.m10, a.m11, a.m12, a.m13, b.m01, b.m11, b.m21, b.m31),
        m12: dot4_s(a.m10, a.m11, a.m12, a.m13, b.m02, b.m12, b.m22, b.m32),
        m13: dot4_s(a.m10, a.m11, a.m12, a.m13, b.m03, b.m13, b.m23, b.m33),
        m20: dot4_s(a.m20, a.m21, a.m22, a.m23, b.m00, b.m10, b.m20, b.m30),
        m21: dot4_s(a.m20, a.m21, a.m22, a.m23, b.m01, b.m11, b.m21, b.m31),
        m22: dot4_s(a.m20, a.m21, a.m22, a.m23, b.m02, b.m12, b.m22, b.m32),
        m23: dot4_s(a.m20, a.m21, a.m22, a.m23, b.m03, b.m13, b.m23, b.m33),
        m30: dot4_s(a.m30, a.m31, a.m32, a.m33, b.m00, b.m10, b.m20, b.m30),
        m31: dot4_s(a.m30, a.m31, a.m32, a.m33, b.m01, b.m11, b.m21, b.m31),
        m32: dot4_s(a.m30, a.m31, a.m32, a.m33, b.m02, b.m12, b.m22, b.m32),
        m33: dot4_s(a.m30, a.m31, a.m32, a.m33, b.m03, b.m13, b.m23, b.m33),
    }
}

/// Translation column of a homogeneous matrix.
pub open spec fn mat4_translation_of_s(m: Mat4) -> Vec3 {
    Vec3 { x: m.m03, y: m.m13, z: m.m23 }
}

impl Vec3 {
    /// The zero vector.
    pub fn zero() -> (r: Vec3)
        ensures
            r == vec3_zero_s(),
    {
        Vec3 { x: 0, y: 0, z: 0 }
    }

    /// The all-ones vector.
    pub fn one() -> (r: Vec3)
        ensures
            r == vec3_one_s(),
    {
        Vec3 { x: FX_ONE, y: FX_ONE, z: FX_ONE }
    }

    /// Componentwise sum.
    pub fn add(&self, o: &Vec3) -> (r: Vec3)
        ensures
            r == vec3_add_s(*self, *o),
    {
        Vec3 { x: fx_add(self.x, o.x), y: fx_add(self.y, o.y), z: fx_add(self.z, o.z) }
    }

    /// Componentwise difference.
    pub fn sub(&self, o: &Vec3) -> (r: Vec3)
        ensures
            r == vec3_sub_s(*self, *o),
    {
        Vec3 { x: fx_sub(self.x, o.x), y: fx_sub(self.y, o.y), z: fx_sub(self.z, o.z) }
    }

    /// Componentwise negation.
    pub fn neg(&self) -> (r: Vec3)
        ensures
            r == vec3_neg_s(*self),
    {
        Vec3 { x: fx_neg(self.x), y: fx_neg(self.y), z: fx_neg(self.z) }
    }

    /// Componentwise product.
    pub fn comp_mul(&self, o: &Vec3) -> (r: Vec3)
        ensures
            r == vec3_comp_mul_s(*self, *o),
    {
        Vec3 { x: fx_mul(self.x, o.x), y: fx_mul(self.y, o.y), z: fx_mul(self.z, o.z) }
    }

    /// Componentwise quotient; a zero component divides to zero.
    pub fn comp_div(&self, o: &Vec3) -> (r: Vec3)
        ensures
            r == vec3_comp_div_s(*self, *o),
    {
        Vec3 { x: fx_div(self.x, o.x), y: fx_div(self.y, o.y), z: fx_div(self.z, o.z) }
    }

    /// Scaled by a scalar.
    pub fn scale(&self, s: Fx) -> (r: Vec3)
        ensures
            r == vec3_scale_s(*self, s),
    {
        Vec3 { x: fx_mul(self.x, s), y: fx_mul(self.y, s), z: fx_mul(self.z, s) }
    }

    /// Cross product.
    pub fn cross(&self, o: &Vec3) -> (r: Vec3)
        ensures
            r == vec3_cross_s(*self, *o),
    {
        Vec3 {
            x: fx_sub(fx_mul(self.y, o.z), fx_mul(self.z, o.y)),
            y: fx_sub(fx_mul(self.z, o.x), fx_mul(self.x, o.z)),
            z: fx_sub(fx_mul(self.x, o.y), fx_mul(self.y, o.x)),
        }
    }
}

impl Quat {
    /// The identity rotation.
    pub fn identity() -> (r: Quat)
        ensures
            r == quat_identity_s(),
    {
        Quat { w: FX_ONE, x: 0, y: 0, z: 0 }
    }

    /// Hamilton product.
    pub fn mul(&self, o: &Quat) -> (r: Quat)
        ensures
            r == quat_mul_s(*self, *o),
    {
        proof {
            reveal(quat_mul_s);
        }
        Quat {
            w: fx_sub(fx_sub(fx_sub(fx_mul(self.w, o.w), fx_mul(self.x, o.x)),
                fx_mul(self.y, o.y)), fx_mul(self.z, o.z)),
            x: fx_sub(fx_add(fx_add(fx_mul(self.w, o.x), fx_mul(self.x, o.w)),
                fx_mul(self.y, o.z)), fx_mul(self.z, o.y)),
            y: fx_add(fx_add(fx_sub(fx_mul(self.w, o.y), fx_mul(self.x, o.z)),
                fx_mul(self.y, o.w)), fx_mul(self.z, o.x)),
            z: fx_add(fx_sub(fx_add(fx_mul(self.w, o.z), fx_mul(self.x, o.y)),
                fx_mul(self.y, o.x)), fx_mul(self.z, o.w)),
        }
    }

    /// Conjugate.
    pub fn conj(&self) -> (r: Quat)
        ensures
            r == quat_conj_s(*self),
    {
        Quat { w: self.w, x: fx_neg(self.x), y: fx_neg(self.y), z: fx_neg(self.z) }
    }

    /// Rotate a vector by this quaternion.
    pub fn rotate(&self, v: &Vec3) -> (r: Vec3)
        ensures
            r == quat_rotate_s(*self, *v),
    {
        let qv = Vec3 { x: self.x, y: self.y, z: self.z };
        let t = qv.cross(v).scale(FX_TWO);
        v.add(&t.scale(self.w)).add(&qv.cross(&t))
    }
}

impl Mat4 {
    /// The identity matrix.
    pub fn identity() -> (r: Mat4)
        ensures
            r == mat4_identity_s(),
    {
        Mat4 {
            m00: FX_ONE, m01: 0, m02: 0, m03: 0,
            m10: 0, m11: FX_ONE, m12: 0, m13: 0,
            m20: 0, m21: 0, m22: FX_ONE, m23: 0,
            m30: 0, m31: 0, m32: 0, m33: FX_ONE,
        }
    }

    /// Translation matrix.
    pub fn translation(p: &Vec3) -> (r: Mat4)
        ensures
            r == mat4_translation_s(*p),
    {
        Mat4 {
            m00: FX_ONE, m01: 0, m02: 0, m03: p.x,
            m10: 0, m11: FX_ONE, m12: 0, m13: p.y,
            m20: 0, m21: 0, m22: FX_ONE, m23: p.z,
            m30: 0, m31: 0, m32: 0, m33: FX_ONE,
        }
    }

    /// Non-uniform scale matrix.
    pub fn scaling(s: &Vec3) -> (r: Mat4)
        ensures
            r == mat4_scale_s(*s),
    {
        Mat4 {
            m00: s.x, m01: 0, m02: 0, m03: 0,
            m10: 0, m11: s.y, m12: 0, m13: 0,
            m20: 0, m21: 0, m22: s.z, m23: 0,
            m30: 0, m31: 0, m32: 0, m33: FX_ONE,
        }
    }

    /// Rotation matrix of a quaternion.
    pub fn rotation(q: &Quat) -> (r: Mat4)
        ensures
            r == mat4_rotation_s(*q),
    {
        Mat4 {
            m00: fx_sub(FX_ONE, fx_mul(FX_TWO, fx_add(fx_mul(q.y, q.y), fx_mul(q.z, q.z)))),
            m01: fx_mul(FX_TWO, fx_sub(fx_mul(q.x, q.y), fx_mul(q.w, q.z))),
            m02: fx_mul(FX_TWO, fx_add(fx_mul(q.x, q.z), fx_mul(q.w, q.y))),
            m03: 0,
            m10: fx_mul(FX_TWO, fx_add(fx_mul(q.x, q.y), fx_mul(q.w, q.z))),
            m11: fx_sub(FX_ONE, fx_mul(FX_TWO, fx_add(fx_mul(q.x, q.x), fx_mul(q.z, q.z)))),
            m12: fx_mul(FX_TWO, fx_sub(fx_mul(q.y, q.z), fx_mul(q.w, q.x))),
            m13: 0,
            m20: fx_mul(FX_TWO, fx_sub(fx_mul(q.x, q.z), fx_mul(q.w, q.y))),
            m21: fx_mul(FX_TWO, fx_add(fx_mul(q.y, q.z), fx_mul(q.w, q.x))),
            m22: fx_sub(FX_ONE, fx_mul(FX_TWO, fx_add(fx_mul(q.x, q.x), fx_mul(q.y, q.y)))),
            m23: 0,
            m30: 0, m31: 0, m32: 0, m33: FX_ONE,
        }
    }

    /// Matrix product.
    pub fn mul(&self, o: &Mat4) -> (r: Mat4)
        ensures
            r == mat4_mul_s(*self, *o),
    {
        proof {
            reveal(mat4_mul_s);
        }
        Mat4 {
            m00: dot4(self.m00, self.m01, self.m02, self.m03, o.m00, o.m10, o.m20, o.m30),
            m01: dot4(self.m00, self.m01, self.m02, self.m03, o.m01, o.m11, o.m21, o.m31),
            m02: dot4(self.m00, self.m01, self.m02, self.m03, o.m02, o.m12, o.m22, o.m32),
            m03: dot4(self.m00, self.m01, self.m02, self.m03, o.m03, o.m13, o.m23, o.m33),
            m10: dot4(self.m10, self.m11, self.m12, self.m13, o.m00, o.m10, o.m20, o.m30),
            m11: dot4(self.m10, self.m11, self.m12, self.m13, o.m01, o.m11, o.m21, o.m31),
            m12: dot4(self.m10, self.m11, self.m12, self.m13, o.m02, o.m12, o.m22, o.m32),
            m13: dot4(self.m10, self.m11, self.m12, self.m13, o.m03, o.m13, o.m23, o.m33),
            m20: dot4(self.m20, self.m21, self.m22, self.m23, o.m00, o.m10, o.m20, o.m30),
            m21: dot4(self.m20, self.m21, self.m22, self.m23, o.m01, o.m11, o.m21, o.m31),
            m22: dot4(self.m20, self.m21, self.m22, self.m23, o.m02, o.m12, o.m22, o.m32),
            m23: dot4(self.m20, self.m21, self.m22, self.m23, o.m03, o.m13, o.m23, o.m33),
            m30: dot4(self.m30, self.m31, self.m32, self.m33, o.m00, o.m10, o.m20, o.m30),
            m31: dot4(self.m30, self.m31, self.m32, self.m33, o.m01, o.m11, o.m21, o.m31),
            m32: dot4(self.m30, self.m31, self.m32, self.m33, o.m02, o.m12, o.m22, o.m32),
            m33: dot4(self.m30, self.m31, self.m32, self.m33, o.m03, o.m13, o.m23, o.m33),
        }
    }

    /// Translation column.
    pub fn translation_of(&self) -> (r: Vec3)
        ensures
            r == mat4_translation_of_s(*self),
    {
        Vec3 { x: self.m03, y: self.m13, z: self.m23 }
    }
}

/// Four-term inner product, additions associated left to right.
fn dot4(a0: i64, a1: i64, a2: i64, a3: i64, b0: i64, b1: i64, b2: i64, b3: i64) -> (r: i64)
    ensures
        r == dot4_s(a0, a1, a2, a3, b0, b1, b2, b3),
{
    fx_add(fx_add(fx_add(fx_mul(a0, b0), fx_mul(a1, b1)), fx_mul(a2, b2)), fx_mul(a3, b3))
}

/// Multiplying by one changes nothing: the rescaling divides the shift
/// back out exactly.
pub proof fn lemma_fmul_one()
    ensures
        forall|x: i64| #[trigger] fmul(x, FX_ONE) == x,
        forall|x: i64| #[trigger] fmul(FX_ONE, x) == x,
{
    assert forall|x: i64| #[trigger] fmul(x, FX_ONE) == x by {
        lemma_cancel_scale(x as int);
    }
    assert forall|x: i64| #[trigger] fmul(FX_ONE, x) == x by {
        lemma_cancel_scale(x as int);
    }
}

/// Dividing by one changes nothing.
pub proof fn lemma_fdiv_one()
    ensures
        forall|x: i64| #[trigger] fdiv(x, FX_ONE) == x,
{
    assert forall|x: i64| #[trigger] fdiv(x, FX_ONE) == x by {
        lemma_cancel_scale(x as int);
    }
}

/// Scaling an integer by the fixed-point unit and dividing it back out is
/// the identity on its magnitude.
proof fn lemma_cancel_scale(x: int)
    requires
        i64::MIN <= x <= i64::MAX,
    ensures
        (crate::fx::abs_i(x) * (FX_ONE as int)) / (FX_ONE as int) == crate::fx::abs_i(x),
        crate::fx::abs_i(x * (FX_ONE as int)) == crate::fx::abs_i(x) * (FX_ONE as int),
        crate::fx::abs_i((FX_ONE as int) * x) == crate::fx::abs_i(x) * (FX_ONE as int),
{
    let a = crate::fx::abs_i(x);
    assert((a * (FX_ONE as int)) / (FX_ONE as int) == a) by (nonlinear_arith)
        requires
            a >= 0,
    ;
    assert(crate::fx::abs_i(x * (FX_ONE as int)) == a * (FX_ONE as int)) by (nonlinear_arith)
        requires
            a == crate::fx::abs_i(x),
            i64::MIN <= x <= i64::MAX,
    ;
    assert(crate::fx::abs_i((FX_ONE as int) * x) == a * (FX_ONE as int)) by (nonlinear_arith)
        requires
            a == crate::fx::abs_i(x),
            i64::MIN <= x <= i64::MAX,
    ;
}

/// The identity matrix is neutral on both sides of the matrix product.
pub proof fn lemma_mat4_identity_neutral(m: Mat4)
    ensures
        mat4_mul_s(mat4_identity_s(), m) == m,
        mat4_mul_s(m, mat4_identity_s()) == m,
{
    reveal(mat4_mul_s);
    lemma_fmul_one();
}

/// The rotation matrix of the identity quaternion is the identity matrix.
pub proof fn lemma_rotation_of_identity()
    ensures
        mat4_rotation_s(quat_identity_s()) == mat4_identity_s(),
{
}

/// The scale matrix of the unit scale is the identity matrix.
pub proof fn lemma_scale_of_one()
    ensures
        mat4_scale_s(vec3_one_s()) == mat4_identity_s(),
{
}

/// Two translations compose to the translation by the saturating sum.
pub proof fn lemma_translation_mul(a: Vec3, b: Vec3)
    ensures
        mat4_mul_s(mat4_translation_s(a), mat4_translation_s(b)) == mat4_translation_s(
            vec3_add_s(a, b),
        ),
{
    reveal(mat4_mul_s);
    lemma_fmul_one();
}

/// Rotating a vector by the identity quaternion (or its conjugate) changes
/// nothing.
pub proof fn lemma_rotate_identity(v: Vec3)
    ensures
        quat_rotate_s(quat_identity_s(), v) == v,
        quat_rotate_s(quat_conj_s(quat_identity_s()), v) == v,
{
    assert(quat_conj_s(quat_identity_s()) == quat_identity_s());
}

/// Componentwise division by the unit scale changes nothing.
pub proof fn lemma_comp_div_one(v: Vec3)
    ensures
        vec3_comp_div_s(v, vec3_one_s()) == v,
{
    lemma_fdiv_one();
}

} // verus!
