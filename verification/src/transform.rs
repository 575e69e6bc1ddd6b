//! Transform algebra: position, orientation and scale in fixed-point
//! milli-units, with the parent-child composition law
//! `position' = parent.position + parent.rotation * (parent.scale * child.position)`,
//! `rotation' = parent.rotation * child.rotation`,
//! `scale' = parent.scale * child.scale`.

use vstd::prelude::*;

use crate::fixed::{
    fx_mul, sat64, sat_add, sat_sub, spec_fx_mul, tdiv, SCALE,
};

verus! {

/// A three-component vector in milli-units.
#[derive(Debug, Clone, Copy, PartialEq, Eq, Structural)]
pub struct Vec3Milli {
    pub x: i64,
    pub y: i64,
    pub z: i64,
}

/// A quaternion in milli-units; the identity is `(0, 0, 0, SCALE)`.
#[derive(Debug, Clone, Copy, PartialEq, Eq, Structural)]
pub struct QuatMilli {
    pub x: i64,
    pub y: i64,
    pub z: i64,
    pub w: i64,
}

/// Local or world transform of an actor.
#[derive(Debug, Clone, Copy, PartialEq, Eq, Structural)]
pub struct ActorTransform {
    pub position: Vec3Milli,
    pub rotation: QuatMilli,
    pub scale: Vec3Milli,
}

impl Vec3Milli {
    /// Build a vector from its components.
    pub fn new(x: i64, y: i64, z: i64) -> (r: Vec3Milli)
        ensures
            r == (Vec3Milli { x, y, z }),
    {
        Vec3Milli { x, y, z }
    }

    /// The zero vector.
    pub fn zero() -> (r: Vec3Milli)
        ensures
            r == spec_v3_zero(),
    {
        Vec3Milli { x: 0, y: 0, z: 0 }
    }

    /// The all-ones vector (one whole unit in each component).
    pub fn one() -> (r: Vec3Milli)
        ensures
            r == spec_v3_one(),
    {
        Vec3Milli { x: SCALE, y: SCALE, z: SCALE }
    }
}

impl QuatMilli {
    /// The identity rotation.
    pub fn identity() -> (r: QuatMilli)
        ensures
            r == spec_quat_identity(),
    {
        QuatMilli { x: 0, y: 0, z: 0, w: SCALE }
    }
}

pub open spec fn spec_v3_zero() -> Vec3Milli {
    Vec3Milli { x: 0, y: 0, z: 0 }
}

pub open spec fn spec_v3_one() -> Vec3Milli {
    Vec3Milli { x: SCALE as i64, y: SCALE as i64, z: SCALE as i64 }
}

pub open spec fn spec_quat_identity() -> QuatMilli {
    QuatMilli { x: 0, y: 0, z: 0, w: SCALE as i64 }
}

pub open spec fn spec_identity_transform() -> ActorTransform {
    ActorTransform {
        position: spec_v3_zero(),
        rotation: spec_quat_identity(),
        scale: spec_v3_one(),
    }
}

/// Componentwise saturating sum.
pub open spec fn spec_v3_add(a: Vec3Milli, b: Vec3Milli) -> Vec3Milli {
    Vec3Milli {
        x: sat64(a.x + b.x) as i64,
        y: sat64(a.y + b.y) as i64,
        z: sat64(a.z + b.z) as i64,
    }
}

/// Componentwise fixed-point product.
pub open spec fn spec_v3_mul(a: Vec3Milli, b: Vec3Milli) -> Vec3Milli {
    Vec3Milli {
        x: spec_fx_mul(a.x as int, b.x as int) as i64,
        y: spec_fx_mul(a.y as int, b.y as int) as i64,
        z: spec_fx_mul(a.z as int, b.z as int) as i64,
    }
}

/// Cross product in fixed point.
pub open spec fn spec_v3_cross(a: Vec3Milli, b: Vec3Milli) -> Vec3Milli {
    Vec3Milli {
        x: sat64(
            spec_fx_mul(a.y as int, b.z as int) - spec_fx_mul(a.z as int, b.y as int),
        ) as i64,
        y: sat64(
            spec_fx_mul(a.z as int, b.x as int) - spec_fx_mul(a.x as int, b.z as int),
        ) as i64,
        z: sat64(
            spec_fx_mul(a.x as int, b.y as int) - spec_fx_mul(a.y as int, b.x as int),
        ) as i64,
    }
}

/// Rotation of a vector by a quaternion:
/// `v + q.w * t + (q.xyz x t)` where `t = 2 * (q.xyz x v)`.
pub open spec fn spec_quat_rotate(q: QuatMilli, v: Vec3Milli) -> Vec3Milli {
    let qv = Vec3Milli { x: q.x, y: q.y, z: q.z };
    let c = spec_v3_cross(qv, v);
    let t = Vec3Milli {
        x: sat64(2 * c.x) as i64,
        y: sat64(2 * c.y) as i64,
        z: sat64(2 * c.z) as i64,
    };
    let wt = Vec3Milli {
        x: spec_fx_mul(q.w as int, t.x as int) as i64,
        y: spec_fx_mul(q.w as int, t.y as int) as i64,
        z: spec_fx_mul(q.w as int, t.z as int) as i64,
    };
    spec_v3_add(spec_v3_add(v, wt), spec_v3_cross(qv, t))
}

/// Hamilton product of two quaternions in fixed point.
pub open spec fn spec_quat_mul(a: QuatMilli, b: QuatMilli) -> QuatMilli {
    QuatMilli {
        x: sat64(
            sat64(
                sat64(
                    spec_fx_mul(a.w as int, b.x as int) + spec_fx_mul(a.x as int, b.w as int),
                ) + spec_fx_mul(a.y as int, b.z as int),
            ) - spec_fx_mul(a.z as int, b.y as int),
        ) as i64,
        y: sat64(
            sat64(
                sat64(
                    spec_fx_mul(a.w as int, b.y as int) - spec_fx_mul(a.x as int, b.z as int),
                ) + spec_fx_mul(a.y as int, b.w as int),
            ) + spec_fx_mul(a.z as int, b.x as int),
        ) as i64,
        z: sat64(
            sat64(
                sat64(
                    spec_fx_mul(a.w as int, b.z as int) + spec_fx_mul(a.x as int, b.y as int),
                ) - spec_fx_mul(a.y as int, b.x as int),
            ) + spec_fx_mul(a.z as int, b.w as int),
        ) as i64,
        w: sat64(
            sat64(
                sat64(
                    spec_fx_mul(a.w as int, b.w as int) - spec_fx_mul(a.x as int, b.x as int),
                ) - spec_fx_mul(a.y as int, b.y as int),
            ) - spec_fx_mul(a.z as int, b.z as int),
        ) as i64,
    }
}

/// The composition law for parent-child transform chaining.
pub open spec fn spec_combine(parent: ActorTransform, child: ActorTransform) -> ActorTransform {
    ActorTransform {
        position: spec_v3_add(
            parent.position,
            spec_quat_rotate(parent.rotation, spec_v3_mul(parent.scale, child.position)),
        ),
        rotation: spec_quat_mul(parent.rotation, child.rotation),
        scale: spec_v3_mul(parent.scale, child.scale),
    }
}

/// Componentwise saturating vector sum.
pub fn v3_add(a: Vec3Milli, b: Vec3Milli) -> (r: Vec3Milli)
    ensures
        r == spec_v3_add(a, b),
{
    Vec3Milli { x: sat_add(a.x, b.x), y: sat_add(a.y, b.y), z: sat_add(a.z, b.z) }
}

/// Componentwise fixed-point vector product.
pub fn v3_mul(a: Vec3Milli, b: Vec3Milli) -> (r: Vec3Milli)
    ensures
        r == spec_v3_mul(a, b),
{
    Vec3Milli { x: fx_mul(a.x, b.x), y: fx_mul(a.y, b.y), z: fx_mul(a.z, b.z) }
}

/// Fixed-point cross product.
pub fn v3_cross(a: Vec3Milli, b: Vec3Milli) -> (r: Vec3Milli)
    ensures
        r == spec_v3_cross(a, b),
{
    Vec3Milli {
        x: sat_sub(fx_mul(a.y, b.z), fx_mul(a.z, b.y)),
        y: sat_sub(fx_mul(a.z, b.x), fx_mul(a.x, b.z)),
        z: sat_sub(fx_mul(a.x, b.y), fx_mul(a.y, b.x)),
    }
}

/// Rotate a vector by a quaternion.
pub fn quat_rotate(q: QuatMilli, v: Vec3Milli) -> (r: Vec3Milli)
    ensures
        r == spec_quat_rotate(q, v),
{
    let qv = Vec3Milli { x: q.x, y: q.y, z: q.z };
    let c = v3_cross(qv, v);
    let t = Vec3Milli {
        x: sat_mul2(c.x),
        y: sat_mul2(c.y),
        z: sat_mul2(c.z),
    };
    let wt = Vec3Milli { x: fx_mul(q.w, t.x), y: fx_mul(q.w, t.y), z: fx_mul(q.w, t.z) };
    v3_add(v3_add(v, wt), v3_cross(qv, t))
}

/// Saturating doubling.
fn sat_mul2(a: i64) -> (r: i64)
    ensures
        r == sat64(2 * a),
{
    sat_add(a, a)
}

/// Hamilton product of two quaternions.
pub fn quat_mul(a: QuatMilli, b: QuatMilli) -> (r: QuatMilli)
    ensures
        r == spec_quat_mul(a, b),
{
    QuatMilli {
        x: sat_sub(
            sat_add(sat_add(fx_mul(a.w, b.x), fx_mul(a.x, b.w)), fx_mul(a.y, b.z)),
            fx_mul(a.z, b.y),
        ),
        y: sat_add(
            sat_add(sat_sub(fx_mul(a.w, b.y), fx_mul(a.x, b.z)), fx_mul(a.y, b.w)),
            fx_mul(a.z, b.x),
        ),
        z: sat_add(
            sat_sub(sat_add(fx_mul(a.w, b.z), fx_mul(a.x, b.y)), fx_mul(a.y, b.x)),
            fx_mul(a.z, b.w),
        ),
        w: sat_sub(
            sat_sub(sat_sub(fx_mul(a.w, b.w), fx_mul(a.x, b.x)), fx_mul(a.y, b.y)),
            fx_mul(a.z, b.z),
        ),
    }
}

impl Default for ActorTransform {
    /// The identity transform: zero position, identity rotation, unit scale.
    fn default() -> (r: ActorTransform)
        ensures
            r == spec_identity_transform(),
    {
        ActorTransform {
            position: Vec3Milli::zero(),
            rotation: QuatMilli::identity(),
            scale: Vec3Milli::one(),
        }
    }
}

impl ActorTransform {
    /// Combine parent and child transforms by the composition law.
    pub fn combine(&self, child: &ActorTransform) -> (r: ActorTransform)
        ensures
            r == spec_combine(*self, *child),
    {
        ActorTransform {
            position: v3_add(
                self.position,
                quat_rotate(self.rotation, v3_mul(self.scale, child.position)),
            ),
            rotation: quat_mul(self.rotation, child.rotation),
            scale: v3_mul(self.scale, child.scale),
        }
    }
}

/// Multiplying by the fixed-point unit is exact.
proof fn lemma_fx_mul_unit(a: int)
    requires
        i64::MIN <= a <= i64::MAX,
    ensures
        spec_fx_mul(SCALE as int, a) == a,
{
    assert(tdiv(SCALE as int * a, SCALE as int) == a) by (nonlinear_arith)
        requires
            SCALE as int == 1000,
    ;
}

/// Under an identity rotation and unit scale, the composition law reduces to
/// a plain (saturating) translation: the child's local offset is added to
/// the parent's position, and the child's rotation and scale pass through.
pub proof fn lemma_combine_is_translation(parent: ActorTransform, child: ActorTransform)
    requires
        parent.rotation == spec_quat_identity(),
        parent.scale == spec_v3_one(),
    ensures
        spec_combine(parent, child).position == spec_v3_add(parent.position, child.position),
        spec_combine(parent, child).rotation == child.rotation,
        spec_combine(parent, child).scale == child.scale,
{
    lemma_fx_mul_unit(child.position.x as int);
    lemma_fx_mul_unit(child.position.y as int);
    lemma_fx_mul_unit(child.position.z as int);
    lemma_fx_mul_unit(child.rotation.x as int);
    lemma_fx_mul_unit(child.rotation.y as int);
    lemma_fx_mul_unit(child.rotation.z as int);
    lemma_fx_mul_unit(child.rotation.w as int);
    lemma_fx_mul_unit(child.scale.x as int);
    lemma_fx_mul_unit(child.scale.y as int);
    lemma_fx_mul_unit(child.scale.z as int);
    assert(spec_fx_mul(0, child.rotation.x as int) == 0);
    assert(spec_fx_mul(0, child.rotation.y as int) == 0);
    assert(spec_fx_mul(0, child.rotation.z as int) == 0);
    assert(spec_fx_mul(0, child.rotation.w as int) == 0);
    let sp = spec_v3_mul(parent.scale, child.position);
    assert(sp == child.position);
    let qv = Vec3Milli { x: 0, y: 0, z: 0 };
    assert(spec_fx_mul(0, sp.y as int) == 0);
    assert(spec_v3_cross(qv, sp) == spec_v3_zero());
    assert(spec_quat_rotate(parent.rotation, sp) == sp);
}

} // verus!
