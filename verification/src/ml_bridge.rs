//! Assisted-animation interfaces: deterministic in-betweening between two
//! transforms with easing curves, and heuristic camera suggestions from
//! scene composition.

use vstd::prelude::*;

use crate::camera::spec_isqrt;
use crate::fixed::{
    fx_mul, isqrt, sat64, sat_add, sat_mul, sat_sub, sin_milli, spec_fx_div, spec_fx_mul,
    spec_sin_milli, tdiv, SCALE,
};
use crate::scene::{spec_positions_sum, SceneGraph};
use crate::transform::{ActorTransform, QuatMilli, Vec3Milli};

verus! {

/// A request to generate intermediate frames between two keyed transforms.
#[derive(Debug, Clone)]
pub struct InbetweenRequest {
    pub start_transform: ActorTransform,
    pub end_transform: ActorTransform,
    pub num_frames: usize,
    pub easing: EasingHint,
}

/// Easing hint for the interpolation.
#[derive(Debug, Clone, Copy, PartialEq, Eq, Structural)]
pub enum EasingHint {
    /// Straight-line interpolation.
    Linear,
    /// Snappy motion: fast start, slow end (cubic ease-out).
    AnimeSnap,
    /// Anticipation, overshoot, settle (back ease-out).
    Overshoot,
    /// Follow-through with secondary motion (damped oscillation).
    FollowThrough,
}

/// Result of in-betweening.
#[derive(Debug, Clone)]
pub struct InbetweenResult {
    pub frames: Vec<ActorTransform>,
    pub confidence: i64,
}

/// Two raised to a negative fixed-point power: an integer halving per whole
/// step with a linear blend across the fractional step.
pub open spec fn spec_pow2_neg(x: int) -> int
    recommends
        x >= 0,
{
    let n = x / 1000;
    let f = x % 1000;
    let base = 1000 - tdiv(f, 2);
    if n >= 63 {
        0
    } else {
        base / vstd::arithmetic::power2::pow2(n as nat) as int
    }
}

/// Two raised to a negative fixed-point power.
fn pow2_neg(x: i64) -> (r: i64)
    requires
        x >= 0,
    ensures
        r == spec_pow2_neg(x as int),
{
    let n = x / 1000;
    let f = x % 1000;
    let base: i64 = 1000 - f / 2;
    assert(base == 1000 - tdiv(f as int, 2));
    if n >= 63 {
        0
    } else {
        proof {
            vstd::arithmetic::power2::lemma2_to64();
            assert(vstd::arithmetic::power2::pow2(n as nat) >= 1) by {
                vstd::arithmetic::power2::lemma_pow2_pos(n as nat);
            }
            assert(vstd::arithmetic::power2::pow2(n as nat) <= vstd::arithmetic::power2::pow2(
                63,
            )) by {
                if n as nat <= 63 {
                    vstd::arithmetic::power2::lemma_pow2_adds(
                        n as nat,
                        (63 - n as nat) as nat,
                    );
                    vstd::arithmetic::power2::lemma_pow2_pos((63 - n as nat) as nat);
                    assert(vstd::arithmetic::power2::pow2(63)
                        == vstd::arithmetic::power2::pow2(n as nat)
                        * vstd::arithmetic::power2::pow2((63 - n as nat) as nat));
                    assert(vstd::arithmetic::power2::pow2(n as nat) * 1
                        <= vstd::arithmetic::power2::pow2(n as nat)
                        * vstd::arithmetic::power2::pow2((63 - n as nat) as nat))
                        by (nonlinear_arith)
                        requires
                            vstd::arithmetic::power2::pow2((63 - n as nat) as nat) >= 1,
                            vstd::arithmetic::power2::pow2(n as nat) >= 0,
                    ;
                }
            }
        }
        let p: u64 = pow2_u64(n as u32);
        proof {
            vstd::arithmetic::power2::lemma_pow2_strictly_increases(n as nat, 63);
            assert(vstd::arithmetic::power2::pow2(63) == 0x8000000000000000) by {
                vstd::arithmetic::power2::lemma2_to64_rest();
            }
        }
        assert(base >= 0);
        let q = base / (p as i64);
        assert(q == spec_pow2_neg(x as int)) by {
            assert(q == tdiv(base as int, p as int));
        }
        q
    }
}

/// Two to a small power as an unsigned value.
fn pow2_u64(n: u32) -> (r: u64)
    requires
        n < 64,
    ensures
        r == vstd::arithmetic::power2::pow2(n as nat),
        r >= 1,
{
    let mut p: u64 = 1;
    let mut i: u32 = 0;
    proof {
        assert(vstd::arithmetic::power2::pow2(0) == 1) by {
            vstd::arithmetic::power2::lemma2_to64();
        }
    }
    while i < n
        invariant
            i <= n < 64,
            p == vstd::arithmetic::power2::pow2(i as nat),
        decreases n - i,
    {
        proof {
            vstd::arithmetic::power2::lemma_pow2_strictly_increases(i as nat, 63);
            assert(vstd::arithmetic::power2::pow2(63) == 0x8000000000000000) by {
                vstd::arithmetic::power2::lemma2_to64_rest();
            }
            vstd::arithmetic::power2::lemma_pow2_adds(i as nat, 1);
            assert(vstd::arithmetic::power2::pow2(1) == 2) by {
                vstd::arithmetic::power2::lemma2_to64();
            }
        }
        p = p * 2;
        i = i + 1;
    }
    proof {
        vstd::arithmetic::power2::lemma_pow2_pos(n as nat);
    }
    p
}

/// The easing curve applied to a phase value in `[0, SCALE]`.
pub open spec fn spec_apply_easing(t: int, easing: EasingHint) -> int {
    match easing {
        EasingHint::Linear => t,
        EasingHint::AnimeSnap => {
            let inv = sat64(1000 - t);
            sat64(1000 - spec_fx_mul(inv, spec_fx_mul(inv, inv)))
        },
        EasingHint::Overshoot => {
            let t1 = sat64(t - 1000);
            let a = sat64(spec_fx_mul(t1, 2702) + 1702);
            let b = spec_fx_mul(t1, a);
            let c = spec_fx_mul(t1, b);
            sat64(c + 1000)
        },
        EasingHint::FollowThrough => {
            if t <= 0 || t >= 1000 {
                t
            } else {
                let decay = spec_pow2_neg(10 * t);
                let angle = spec_fx_mul(sat64(t - 75), 20944);
                sat64(spec_fx_mul(decay, spec_sin_milli(angle)) + 1000)
            }
        },
    }
}

/// Apply an easing curve to a phase value in `[0, SCALE]`.
pub fn apply_easing(t: i64, easing: EasingHint) -> (r: i64)
    ensures
        r == spec_apply_easing(t as int, easing),
{
    match easing {
        EasingHint::Linear => t,
        EasingHint::AnimeSnap => {
            let inv = sat_sub(1000, t);
            sat_sub(1000, fx_mul(inv, fx_mul(inv, inv)))
        },
        EasingHint::Overshoot => {
            let t1 = sat_sub(t, 1000);
            let a = sat_add(fx_mul(t1, 2702), 1702);
            let b = fx_mul(t1, a);
            let c = fx_mul(t1, b);
            sat_add(c, 1000)
        },
        EasingHint::FollowThrough => {
            if t <= 0 || t >= 1000 {
                t
            } else {
                let decay = pow2_neg(10 * t);
                let angle = fx_mul(sat_sub(t, 75), 20944);
                sat_add(fx_mul(decay, sin_milli(angle)), 1000)
            }
        },
    }
}

/// Fixed-point linear interpolation of one component.
pub open spec fn spec_lerp_c(a: int, b: int, t: int) -> int {
    sat64(a + spec_fx_mul(sat64(b - a), t))
}

fn lerp_c(a: i64, b: i64, t: i64) -> (r: i64)
    ensures
        r == spec_lerp_c(a as int, b as int, t as int),
{
    sat_add(a, fx_mul(sat_sub(b, a), t))
}

/// Componentwise linear interpolation of a vector.
pub open spec fn spec_lerp_v3(a: Vec3Milli, b: Vec3Milli, t: int) -> Vec3Milli {
    Vec3Milli {
        x: spec_lerp_c(a.x as int, b.x as int, t) as i64,
        y: spec_lerp_c(a.y as int, b.y as int, t) as i64,
        z: spec_lerp_c(a.z as int, b.z as int, t) as i64,
    }
}

fn lerp_v3(a: Vec3Milli, b: Vec3Milli, t: i64) -> (r: Vec3Milli)
    ensures
        r == spec_lerp_v3(a, b, t as int),
{
    Vec3Milli { x: lerp_c(a.x, b.x, t), y: lerp_c(a.y, b.y, t), z: lerp_c(a.z, b.z, t) }
}

/// Rotation interpolation: the componentwise blend scaled back to unit
/// length (the identity when the blend degenerates to zero).
pub open spec fn spec_nlerp_quat(a: QuatMilli, b: QuatMilli, t: int) -> QuatMilli {
    let x = spec_lerp_c(a.x as int, b.x as int, t);
    let y = spec_lerp_c(a.y as int, b.y as int, t);
    let z = spec_lerp_c(a.z as int, b.z as int, t);
    let w = spec_lerp_c(a.w as int, b.w as int, t);
    let len = spec_isqrt(
        sat64(
            sat64(sat64(sat64(x * x) + sat64(y * y)) + sat64(z * z)) + sat64(w * w),
        ),
    );
    if len == 0 {
        QuatMilli { x: 0, y: 0, z: 0, w: SCALE as i64 }
    } else {
        QuatMilli {
            x: spec_fx_div(x, len) as i64,
            y: spec_fx_div(y, len) as i64,
            z: spec_fx_div(z, len) as i64,
            w: spec_fx_div(w, len) as i64,
        }
    }
}

fn nlerp_quat(a: QuatMilli, b: QuatMilli, t: i64) -> (r: QuatMilli)
    ensures
        r == spec_nlerp_quat(a, b, t as int),
{
    let x = lerp_c(a.x, b.x, t);
    let y = lerp_c(a.y, b.y, t);
    let z = lerp_c(a.z, b.z, t);
    let w = lerp_c(a.w, b.w, t);
    let sq = sat_add(
        sat_add(sat_add(sat_mul(x, x), sat_mul(y, y)), sat_mul(z, z)),
        sat_mul(w, w),
    );
    proof {
        assert(sat64(x * x) >= 0 && sat64(y * y) >= 0 && sat64(z * z) >= 0 && sat64(w * w) >= 0)
            by (nonlinear_arith);
    }
    let len = isqrt(sq);
    proof {
        crate::camera::lemma_isqrt_unique(sq as int, len as int);
    }
    if len == 0 {
        QuatMilli { x: 0, y: 0, z: 0, w: SCALE }
    } else {
        QuatMilli {
            x: crate::fixed::fx_div(x, len),
            y: crate::fixed::fx_div(y, len),
            z: crate::fixed::fx_div(z, len),
            w: crate::fixed::fx_div(w, len),
        }
    }
}

/// The eased phase of intermediate frame `i` out of `n`.
pub open spec fn spec_frame_phase(i: int, n: int, easing: EasingHint) -> int {
    spec_apply_easing(tdiv(i * 1000, n + 1), easing)
}

/// Generate intermediate frames by interpolating position, rotation and
/// scale at evenly spaced eased phases. Deterministic: a pure function of
/// the request.
pub fn generate_inbetweens(request: &InbetweenRequest) -> (r: InbetweenResult)
    requires
        request.num_frames < usize::MAX,
    ensures
        r.frames@.len() == request.num_frames,
        r.confidence == 1000,
        forall|i: int|
            0 <= i < r.frames@.len() ==> (#[trigger] r.frames@[i]).position == spec_lerp_v3(
                request.start_transform.position,
                request.end_transform.position,
                spec_frame_phase(i + 1, request.num_frames as int, request.easing),
            ) && r.frames@[i].rotation == spec_nlerp_quat(
                request.start_transform.rotation,
                request.end_transform.rotation,
                spec_frame_phase(i + 1, request.num_frames as int, request.easing),
            ) && r.frames@[i].scale == spec_lerp_v3(
                request.start_transform.scale,
                request.end_transform.scale,
                spec_frame_phase(i + 1, request.num_frames as int, request.easing),
            ),
{
    let mut frames: Vec<ActorTransform> = Vec::new();
    let n = request.num_frames;
    let mut i: usize = 1;
    while i <= n
        invariant
            n < usize::MAX,
            1 <= i <= n + 1,
            frames@.len() == i - 1,
            forall|j: int|
                0 <= j < frames@.len() ==> (#[trigger] frames@[j]).position == spec_lerp_v3(
                    request.start_transform.position,
                    request.end_transform.position,
                    spec_frame_phase(j + 1, n as int, request.easing),
                ) && frames@[j].rotation == spec_nlerp_quat(
                    request.start_transform.rotation,
                    request.end_transform.rotation,
                    spec_frame_phase(j + 1, n as int, request.easing),
                ) && frames@[j].scale == spec_lerp_v3(
                    request.start_transform.scale,
                    request.end_transform.scale,
                    spec_frame_phase(j + 1, n as int, request.easing),
                ),
        decreases n + 1 - i,
    {
        let raw: i128 = (i as i128) * 1000;
        let q: i128 = raw / ((n as i128) + 1);
        proof {
            assert(q == tdiv(i as int * 1000, n as int + 1));
            assert(0 <= q <= 1000) by (nonlinear_arith)
                requires
                    q == (i as i128 * 1000) / (n as i128 + 1),
                    1 <= i as i128 <= n as i128 + 1,
            ;
        }
        let t0: i64 = q as i64;
        let t = apply_easing(t0, request.easing);
        let position = lerp_v3(
            request.start_transform.position,
            request.end_transform.position,
            t,
        );
        let rotation = nlerp_quat(
            request.start_transform.rotation,
            request.end_transform.rotation,
            t,
        );
        let scale = lerp_v3(request.start_transform.scale, request.end_transform.scale, t);
        frames.push(ActorTransform { position, rotation, scale });
        i = i + 1;
    }
    InbetweenResult { frames, confidence: 1000 }
}

/// A suggested camera placement with a confidence and a short reason.
#[derive(Debug, Clone)]
pub struct CameraSuggestion {
    pub position: Vec3Milli,
    pub target: Vec3Milli,
    pub fov: i64,
    pub confidence: i64,
    pub rationale: &'static str,
}

/// Suggest a camera placement: center on the visible actors and pull back
/// further the more actors there are; a fixed default for an empty scene.
pub fn suggest_camera(scene: &SceneGraph) -> (r: CameraSuggestion)
    ensures
        spec_positions_sum(scene.spec_slots()).1 == 0 ==> r.position == (Vec3Milli {
            x: 0i64,
            y: 0i64,
            z: 10000i64,
        }) && r.confidence == 500,
        spec_positions_sum(scene.spec_slots()).1 > 0 ==> {
            let sum = spec_positions_sum(scene.spec_slots()).0;
            let count = spec_positions_sum(scene.spec_slots()).1;
            let center = Vec3Milli {
                x: tdiv(sum.x as int, count) as i64,
                y: tdiv(sum.y as int, count) as i64,
                z: tdiv(sum.z as int, count) as i64,
            };
            &&& r.target == center
            &&& r.position.x == center.x
            &&& r.position.y == sat64(center.y + 2000)
            &&& r.position.z == sat64(center.z + sat64(5000 + sat64(count * 2000)))
            &&& r.confidence == 800
        },
        r.fov == crate::camera::DEFAULT_FOV,
{
    proof {
        reveal_strlit("Default: no actors in scene");
        reveal_strlit("Auto-framing: centered on actors");
    }
    let (sum, count) = scene.actor_positions_sum();
    if count == 0 {
        return CameraSuggestion {
            position: Vec3Milli { x: 0, y: 0, z: 10000 },
            target: Vec3Milli { x: 0, y: 0, z: 0 },
            fov: crate::camera::DEFAULT_FOV,
            confidence: 500,
            rationale: "Default: no actors in scene",
        };
    }
    let center = Vec3Milli {
        x: crate::fixed::tdiv_u(sum.x, count as u64),
        y: crate::fixed::tdiv_u(sum.y, count as u64),
        z: crate::fixed::tdiv_u(sum.z, count as u64),
    };
    let distance = sat_add(5000, crate::fixed::sat_mul_u64(count as u64, 2000));
    CameraSuggestion {
        position: Vec3Milli {
            x: center.x,
            y: sat_add(center.y, 2000),
            z: sat_add(center.z, distance),
        },
        target: center,
        fov: crate::camera::DEFAULT_FOV,
        confidence: 800,
        rationale: "Auto-framing: centered on actors",
    }
}

} // verus!
