//! Camera track: seven keyframe channels (position x/y/z, look-at target
//! x/y/z, field of view) plus procedural shake and named camera-work
//! presets. Evaluation is a pure function of the track and the query time.

use vstd::prelude::*;

use crate::fixed::{
    cos_milli, fx_mul, isqrt, sat64, sat_add, sat_mul, sat_sub, sin_milli, spec_cos_milli,
    spec_fx_div, spec_fx_mul, spec_sin_milli, tdiv, SCALE, TAU_MILLI,
};
use crate::track::{
    lemma_eval_at_sample, spec_track_eval, spec_track_eval_or, Keyframe, Track,
};
use crate::transform::{v3_add, spec_v3_add, Vec3Milli};

verus! {

/// Default camera position on the forward axis: pulled back five units.
pub const DEFAULT_POS_Z: i64 = 5000;

/// Default field of view: a quarter of pi, in milliradians.
pub const DEFAULT_FOV: i64 = 785;

/// Evaluated camera state at a single instant.
#[derive(Debug, Clone, Copy, PartialEq, Eq, Structural)]
pub struct CameraState {
    pub position: Vec3Milli,
    pub target: Vec3Milli,
    pub fov: i64,
}

pub open spec fn spec_default_camera_state() -> CameraState {
    CameraState {
        position: Vec3Milli { x: 0, y: 0, z: DEFAULT_POS_Z as i64 },
        target: Vec3Milli { x: 0, y: 0, z: 0 },
        fov: DEFAULT_FOV as i64,
    }
}

/// Squared length of a vector, saturating.
pub open spec fn spec_v3_len_sq(v: Vec3Milli) -> int {
    sat64(sat64(sat64(v.x * v.x) + sat64(v.y * v.y)) + sat64(v.z * v.z))
}

/// Direction of a vector scaled to unit length in milli-units; zero for the
/// zero vector.
pub open spec fn spec_v3_normalize(v: Vec3Milli) -> Vec3Milli {
    let len = spec_isqrt(spec_v3_len_sq(v));
    if len == 0 {
        Vec3Milli { x: 0, y: 0, z: 0 }
    } else {
        Vec3Milli {
            x: spec_fx_div(v.x as int, len) as i64,
            y: spec_fx_div(v.y as int, len) as i64,
            z: spec_fx_div(v.z as int, len) as i64,
        }
    }
}

/// `r` is the integer square root of `x`.
pub open spec fn spec_is_isqrt(x: int, r: int) -> bool {
    0 <= r && r * r <= x && (r + 1) * (r + 1) > x
}

/// The integer square root as a spec-level function.
pub open spec fn spec_isqrt(x: int) -> int {
    choose|r: int| spec_is_isqrt(x, r)
}

/// The integer square root exists and is unique, so `spec_isqrt` names it.
pub proof fn lemma_isqrt_unique(x: int, r: int)
    requires
        0 <= r,
        r * r <= x,
        (r + 1) * (r + 1) > x,
    ensures
        spec_isqrt(x) == r,
{
    assert(spec_is_isqrt(x, r));
    let c = spec_isqrt(x);
    assert(spec_is_isqrt(x, c));
    assert(c == r) by (nonlinear_arith)
        requires
            0 <= r,
            r * r <= x,
            (r + 1) * (r + 1) > x,
            0 <= c,
            c * c <= x,
            (c + 1) * (c + 1) > x,
    ;
}

/// Normalize a vector to unit length in milli-units (zero stays zero).
pub fn v3_normalize(v: Vec3Milli) -> (r: Vec3Milli)
    ensures
        r == spec_v3_normalize(v),
{
    let sq = sat_add(sat_add(sat_mul(v.x, v.x), sat_mul(v.y, v.y)), sat_mul(v.z, v.z));
    proof {
        assert(sat64(v.x * v.x) >= 0 && sat64(v.y * v.y) >= 0 && sat64(v.z * v.z) >= 0)
            by (nonlinear_arith);
    }
    let len = isqrt(sq);
    proof {
        lemma_isqrt_unique(sq as int, len as int);
    }
    if len == 0 {
        Vec3Milli { x: 0, y: 0, z: 0 }
    } else {
        Vec3Milli {
            x: crate::fixed::fx_div(v.x, len),
            y: crate::fixed::fx_div(v.y, len),
            z: crate::fixed::fx_div(v.z, len),
        }
    }
}

impl CameraState {
    /// Forward direction: the unit vector from position toward the target,
    /// zero when they coincide.
    pub fn forward(&self) -> (r: Vec3Milli)
        ensures
            r == spec_v3_normalize(
                Vec3Milli {
                    x: sat64(self.target.x - self.position.x) as i64,
                    y: sat64(self.target.y - self.position.y) as i64,
                    z: sat64(self.target.z - self.position.z) as i64,
                },
            ),
    {
        let d = Vec3Milli {
            x: sat_sub(self.target.x, self.position.x),
            y: sat_sub(self.target.y, self.position.y),
            z: sat_sub(self.target.z, self.position.z),
        };
        v3_normalize(d)
    }
}

impl Default for CameraState {
    /// The default viewpoint: pulled back on the forward axis, looking at
    /// the origin with the default field of view.
    fn default() -> (r: CameraState)
        ensures
            r == spec_default_camera_state(),
    {
        CameraState {
            position: Vec3Milli { x: 0, y: 0, z: DEFAULT_POS_Z },
            target: Vec3Milli { x: 0, y: 0, z: 0 },
            fov: DEFAULT_FOV,
        }
    }
}

/// Camera work presets.
#[derive(Debug, Clone, Copy, PartialEq, Eq, Structural)]
pub enum CameraWork {
    /// Static camera.
    Static,
    /// Horizontal pan.
    Pan { speed: i64 },
    /// Vertical tilt.
    Tilt { speed: i64 },
    /// Move the camera along the view direction.
    Dolly { speed: i64 },
    /// Change the field of view.
    Zoom { target_fov: i64 },
    /// Orbit around the target.
    Orbit { radius: i64, speed: i64 },
    /// Procedural camera shake.
    Shake { amplitude: i64, frequency: i64 },
}

/// Animated camera track.
#[derive(Debug, Clone)]
pub struct CameraTrack {
    pub position_x: Track,
    pub position_y: Track,
    pub position_z: Track,
    pub target_x: Track,
    pub target_y: Track,
    pub target_z: Track,
    pub fov_track: Track,
    pub shake_amplitude: i64,
    pub shake_frequency: i64,
}

/// The three clauses of a single-sample channel insertion: the new sample is
/// present, all other samples are kept, and nothing else appears.
pub open spec fn spec_inserted(
    before: Seq<Keyframe>,
    after: Seq<Keyframe>,
    time: i64,
    value: i64,
) -> bool {
    &&& after.contains(Keyframe { time, value })
    &&& forall|k: Keyframe| before.contains(k) && k.time != time ==> after.contains(k)
    &&& forall|k: Keyframe|
        after.contains(k) ==> (k == Keyframe { time, value } || (before.contains(k) && k.time
            != time))
}

/// The additive shake offset on the horizontal axis at a time.
pub open spec fn spec_shake_x(amplitude: int, frequency: int, t: int) -> int {
    let angle = spec_fx_mul(spec_fx_mul(t, frequency), TAU_MILLI as int);
    spec_fx_mul(spec_sin_milli(angle), amplitude)
}

/// The additive shake offset on the vertical axis at a time; the detuned
/// frequency and reduced amplitude keep the shake from being circular.
pub open spec fn spec_shake_y(amplitude: int, frequency: int, t: int) -> int {
    let angle = spec_fx_mul(spec_fx_mul(t, frequency), TAU_MILLI as int);
    spec_fx_mul(spec_fx_mul(spec_cos_milli(spec_fx_mul(angle, 1300)), amplitude), 700)
}

impl CameraTrack {
    /// All seven channels are well-formed.
    pub open spec fn wf(&self) -> bool {
        &&& self.position_x.wf()
        &&& self.position_y.wf()
        &&& self.position_z.wf()
        &&& self.target_x.wf()
        &&& self.target_y.wf()
        &&& self.target_z.wf()
        &&& self.fov_track.wf()
    }

    /// The state that evaluation returns at a time: each channel sampled
    /// independently with its component default, then shake added to the
    /// position when the amplitude is positive.
    pub open spec fn spec_evaluate(&self, t: int) -> CameraState {
        let px = spec_track_eval_or(self.position_x.samples@, t, 0);
        let py = spec_track_eval_or(self.position_y.samples@, t, 0);
        let pz = spec_track_eval_or(self.position_z.samples@, t, DEFAULT_POS_Z as int);
        let tx = spec_track_eval_or(self.target_x.samples@, t, 0);
        let ty = spec_track_eval_or(self.target_y.samples@, t, 0);
        let tz = spec_track_eval_or(self.target_z.samples@, t, 0);
        let fov = spec_track_eval_or(self.fov_track.samples@, t, 0);
        let sx = if self.shake_amplitude > 0 {
            spec_shake_x(self.shake_amplitude as int, self.shake_frequency as int, t)
        } else {
            0
        };
        let sy = if self.shake_amplitude > 0 {
            spec_shake_y(self.shake_amplitude as int, self.shake_frequency as int, t)
        } else {
            0
        };
        CameraState {
            position: Vec3Milli {
                x: sat64(px + sx) as i64,
                y: sat64(py + sy) as i64,
                z: sat64(pz) as i64,
            },
            target: Vec3Milli { x: sat64(tx) as i64, y: sat64(ty) as i64, z: sat64(tz) as i64 },
            fov: sat64(fov) as i64,
        }
    }

    /// Write one sample into each of the seven channels at `time`; this is
    /// the only supported way to keep the channels time-aligned.
    pub fn add_keyframe(&mut self, time: i64, position: Vec3Milli, target: Vec3Milli, fov: i64)
        requires
            old(self).wf(),
        ensures
            final(self).wf(),
            spec_inserted(
                old(self).position_x.samples@,
                final(self).position_x.samples@,
                time,
                position.x,
            ),
            spec_inserted(
                old(self).position_y.samples@,
                final(self).position_y.samples@,
                time,
                position.y,
            ),
            spec_inserted(
                old(self).position_z.samples@,
                final(self).position_z.samples@,
                time,
                position.z,
            ),
            spec_inserted(
                old(self).target_x.samples@,
                final(self).target_x.samples@,
                time,
                target.x,
            ),
            spec_inserted(
                old(self).target_y.samples@,
                final(self).target_y.samples@,
                time,
                target.y,
            ),
            spec_inserted(
                old(self).target_z.samples@,
                final(self).target_z.samples@,
                time,
                target.z,
            ),
            spec_inserted(old(self).fov_track.samples@, final(self).fov_track.samples@, time, fov),
            final(self).shake_amplitude == old(self).shake_amplitude,
            final(self).shake_frequency == old(self).shake_frequency,
    {
        self.position_x.add_keyframe(time, position.x);
        self.position_y.add_keyframe(time, position.y);
        self.position_z.add_keyframe(time, position.z);
        self.target_x.add_keyframe(time, target.x);
        self.target_y.add_keyframe(time, target.y);
        self.target_z.add_keyframe(time, target.z);
        self.fov_track.add_keyframe(time, fov);
    }

    /// Evaluate the camera state at a time. Pure and deterministic: two
    /// calls with the same time yield the same state.
    pub fn evaluate(&self, time: i64) -> (r: CameraState)
        requires
            self.wf(),
        ensures
            r == self.spec_evaluate(time as int),
    {
        let px = self.position_x.evaluate_or(time, 0);
        let py = self.position_y.evaluate_or(time, 0);
        let pz = self.position_z.evaluate_or(time, DEFAULT_POS_Z);
        let tx = self.target_x.evaluate_or(time, 0);
        let ty = self.target_y.evaluate_or(time, 0);
        let tz = self.target_z.evaluate_or(time, 0);
        let fov = self.fov_track.evaluate_or(time, 0);
        let mut x = px;
        let mut y = py;
        if self.shake_amplitude > 0 {
            let angle = fx_mul(fx_mul(time, self.shake_frequency), TAU_MILLI);
            let sx = fx_mul(sin_milli(angle), self.shake_amplitude);
            let sy = fx_mul(fx_mul(cos_milli(fx_mul(angle, 1300)), self.shake_amplitude), 700);
            x = sat_add(px, sx);
            y = sat_add(py, sy);
        }
        CameraState {
            position: Vec3Milli { x, y, z: pz },
            target: Vec3Milli { x: tx, y: ty, z: tz },
            fov,
        }
    }

    /// Apply a camera-work preset over `[start, start + duration]`,
    /// synthesizing keyframes against the current state at `start`.
    ///
    /// For the keyframe-writing presets the contract pins, with no time
    /// saturation and regardless of shake, exactly which samples every
    /// channel receives: the current state keyed at `start` and the
    /// preset's end state keyed at the end (pan and tilt shift by
    /// `speed * duration`, dolly moves along the normalized forward
    /// direction, zoom moves only the field of view). With shake inactive
    /// it additionally pins the evaluated end state exactly and states the
    /// read-then-write law: the pre-call state at `start` is keyed first,
    /// so evaluation at `start` is unchanged. The orbit clause pins all
    /// nine sampled keyframes of every channel — in particular the height
    /// recorded at `start` is written unchanged into each sample; orbit
    /// keys an orbit position at `start` itself, so it is the one
    /// keyframe-writing preset without the read-then-write clause.
    #[verifier::rlimit(100)]
    #[verifier::spinoff_prover]
    pub fn apply_preset(&mut self, work: CameraWork, start: i64, duration: i64)
        requires
            old(self).wf(),
        ensures
            final(self).wf(),
            work == CameraWork::Static ==> *final(self) == *old(self),
            !(work matches CameraWork::Shake { .. }) ==> final(self).shake_amplitude == old(
                self,
            ).shake_amplitude && final(self).shake_frequency == old(self).shake_frequency,
            forall|a: i64, f: i64|
                work == (CameraWork::Shake { amplitude: a, frequency: f }) ==> *final(self) == (
                CameraTrack { shake_amplitude: a, shake_frequency: f, ..*old(self) }),
            forall|speed: i64|
                {
                    &&& work == (CameraWork::Pan { speed })
                    &&& duration > 0
                    &&& start + duration <= i64::MAX
                } ==> {
                    let cur = old(self).spec_evaluate(start as int);
                    let m = spec_fx_mul(speed as int, duration as int);
                    let npos = Vec3Milli {
                        x: sat64(cur.position.x + m) as i64,
                        y: cur.position.y,
                        z: cur.position.z,
                    };
                    let ntgt = Vec3Milli {
                        x: sat64(cur.target.x + m) as i64,
                        y: cur.target.y,
                        z: cur.target.z,
                    };
                    &&& spec_state_keyed(*final(self), start, cur.position, cur.target, cur.fov)
                    &&& spec_state_keyed(
                        *final(self),
                        (start + duration) as i64,
                        npos,
                        ntgt,
                        cur.fov,
                    )
                    &&& (old(self).shake_amplitude <= 0 ==> final(self).spec_evaluate(
                        start + duration,
                    ) == (CameraState { position: npos, target: ntgt, fov: cur.fov }) && final(self).spec_evaluate(start as int) == cur)
                },
            forall|speed: i64|
                {
                    &&& work == (CameraWork::Tilt { speed })
                    &&& duration > 0
                    &&& start + duration <= i64::MAX
                } ==> {
                    let cur = old(self).spec_evaluate(start as int);
                    let m = spec_fx_mul(speed as int, duration as int);
                    let ntgt = Vec3Milli {
                        x: cur.target.x,
                        y: sat64(cur.target.y + m) as i64,
                        z: cur.target.z,
                    };
                    &&& spec_state_keyed(*final(self), start, cur.position, cur.target, cur.fov)
                    &&& spec_state_keyed(
                        *final(self),
                        (start + duration) as i64,
                        cur.position,
                        ntgt,
                        cur.fov,
                    )
                    &&& (old(self).shake_amplitude <= 0 ==> final(self).spec_evaluate(
                        start + duration,
                    ) == (CameraState { position: cur.position, target: ntgt, fov: cur.fov })
                        && final(self).spec_evaluate(start as int) == cur)
                },
            forall|speed: i64|
                {
                    &&& work == (CameraWork::Dolly { speed })
                    &&& duration > 0
                    &&& start + duration <= i64::MAX
                } ==> {
                    let cur = old(self).spec_evaluate(start as int);
                    let m = spec_fx_mul(speed as int, duration as int);
                    let dir = spec_v3_normalize(
                        Vec3Milli {
                            x: sat64(cur.target.x - cur.position.x) as i64,
                            y: sat64(cur.target.y - cur.position.y) as i64,
                            z: sat64(cur.target.z - cur.position.z) as i64,
                        },
                    );
                    let npos = Vec3Milli {
                        x: sat64(cur.position.x + spec_fx_mul(dir.x as int, m)) as i64,
                        y: sat64(cur.position.y + spec_fx_mul(dir.y as int, m)) as i64,
                        z: sat64(cur.position.z + spec_fx_mul(dir.z as int, m)) as i64,
                    };
                    &&& spec_state_keyed(*final(self), start, cur.position, cur.target, cur.fov)
                    &&& spec_state_keyed(
                        *final(self),
                        (start + duration) as i64,
                        npos,
                        cur.target,
                        cur.fov,
                    )
                    &&& (old(self).shake_amplitude <= 0 ==> final(self).spec_evaluate(
                        start + duration,
                    ) == (CameraState { position: npos, target: cur.target, fov: cur.fov })
                        && final(self).spec_evaluate(start as int) == cur)
                },
            forall|target_fov: i64|
                {
                    &&& work == (CameraWork::Zoom { target_fov })
                    &&& duration > 0
                    &&& start + duration <= i64::MAX
                } ==> {
                    let cur = old(self).spec_evaluate(start as int);
                    &&& spec_state_keyed(*final(self), start, cur.position, cur.target, cur.fov)
                    &&& spec_state_keyed(
                        *final(self),
                        (start + duration) as i64,
                        cur.position,
                        cur.target,
                        target_fov,
                    )
                    &&& (old(self).shake_amplitude <= 0 ==> final(self).spec_evaluate(
                        start + duration,
                    ) == (CameraState {
                        position: cur.position,
                        target: cur.target,
                        fov: target_fov,
                    }) && final(self).spec_evaluate(start as int) == cur)
                },
            forall|radius: i64, speed: i64|
                {
                    &&& work == (CameraWork::Orbit { radius, speed })
                    &&& duration > 0
                } ==> {
                    let cur = old(self).spec_evaluate(start as int);
                    forall|i: int|
                        0 <= i <= 8 ==> #[trigger] spec_orbit_keyed(
                            *final(self),
                            spec_orbit_time(start, duration, i),
                            spec_orbit_pos(
                                cur,
                                radius,
                                speed,
                                start,
                                spec_orbit_time(start, duration, i),
                            ),
                            cur,
                        )
                },
    {
        let end = sat_add(start, duration);
        match work {
            CameraWork::Static => {},
            CameraWork::Pan { speed } => {
                let cur = self.evaluate(start);
                self.add_keyframe(start, cur.position, cur.target, cur.fov);
                let shift = fx_mul(speed, duration);
                let offset = Vec3Milli { x: shift, y: 0, z: 0 };
                let npos = v3_add(cur.position, offset);
                let ntgt = v3_add(cur.target, offset);
                self.add_keyframe(end, npos, ntgt, cur.fov);
                proof {
                    if duration > 0 && start + duration <= i64::MAX && old(
                        self,
                    ).shake_amplitude <= 0 {
                        assert(end == start + duration && end != start);
                        lemma_eval_at_keyed(
                            *self,
                            end,
                            npos.x,
                            npos.y,
                            npos.z,
                            ntgt.x,
                            ntgt.y,
                            ntgt.z,
                            cur.fov,
                        );
                        lemma_eval_at_keyed(
                            *self,
                            start,
                            cur.position.x,
                            cur.position.y,
                            cur.position.z,
                            cur.target.x,
                            cur.target.y,
                            cur.target.z,
                            cur.fov,
                        );
                    }
                }
            },
            CameraWork::Tilt { speed } => {
                let cur = self.evaluate(start);
                self.add_keyframe(start, cur.position, cur.target, cur.fov);
                let shift = fx_mul(speed, duration);
                let offset = Vec3Milli { x: 0, y: shift, z: 0 };
                let ntgt = v3_add(cur.target, offset);
                self.add_keyframe(end, cur.position, ntgt, cur.fov);
                proof {
                    if duration > 0 && start + duration <= i64::MAX && old(
                        self,
                    ).shake_amplitude <= 0 {
                        assert(end == start + duration && end != start);
                        lemma_eval_at_keyed(
                            *self,
                            end,
                            cur.position.x,
                            cur.position.y,
                            cur.position.z,
                            ntgt.x,
                            ntgt.y,
                            ntgt.z,
                            cur.fov,
                        );
                        lemma_eval_at_keyed(
                            *self,
                            start,
                            cur.position.x,
                            cur.position.y,
                            cur.position.z,
                            cur.target.x,
                            cur.target.y,
                            cur.target.z,
                            cur.fov,
                        );
                    }
                }
            },
            CameraWork::Dolly { speed } => {
                let cur = self.evaluate(start);
                let dir = cur.forward();
                self.add_keyframe(start, cur.position, cur.target, cur.fov);
                let shift = fx_mul(speed, duration);
                let step = Vec3Milli {
                    x: fx_mul(dir.x, shift),
                    y: fx_mul(dir.y, shift),
                    z: fx_mul(dir.z, shift),
                };
                let npos = v3_add(cur.position, step);
                self.add_keyframe(end, npos, cur.target, cur.fov);
                proof {
                    if duration > 0 && start + duration <= i64::MAX && old(
                        self,
                    ).shake_amplitude <= 0 {
                        assert(end == start + duration && end != start);
                        lemma_eval_at_keyed(
                            *self,
                            end,
                            npos.x,
                            npos.y,
                            npos.z,
                            cur.target.x,
                            cur.target.y,
                            cur.target.z,
                            cur.fov,
                        );
                        lemma_eval_at_keyed(
                            *self,
                            start,
                            cur.position.x,
                            cur.position.y,
                            cur.position.z,
                            cur.target.x,
                            cur.target.y,
                            cur.target.z,
                            cur.fov,
                        );
                    }
                }
            },
            CameraWork::Zoom { target_fov } => {
                let cur = self.evaluate(start);
                self.add_keyframe(start, cur.position, cur.target, cur.fov);
                self.add_keyframe(end, cur.position, cur.target, target_fov);
                proof {
                    if duration > 0 && start + duration <= i64::MAX && old(
                        self,
                    ).shake_amplitude <= 0 {
                        assert(end == start + duration && end != start);
                        lemma_eval_at_keyed(
                            *self,
                            end,
                            cur.position.x,
                            cur.position.y,
                            cur.position.z,
                            cur.target.x,
                            cur.target.y,
                            cur.target.z,
                            target_fov,
                        );
                        lemma_eval_at_keyed(
                            *self,
                            start,
                            cur.position.x,
                            cur.position.y,
                            cur.position.z,
                            cur.target.x,
                            cur.target.y,
                            cur.target.z,
                            cur.fov,
                        );
                    }
                }
            },
            CameraWork::Orbit { radius, speed } => {
                let cur = self.evaluate(start);
                let mut i: u32 = 0;
                while i <= 8
                    invariant
                        self.wf(),
                        self.shake_amplitude == old(self).shake_amplitude,
                        self.shake_frequency == old(self).shake_frequency,
                        cur == old(self).spec_evaluate(start as int),
                        forall|j: int|
                            0 <= j < i ==> #[trigger] spec_orbit_keyed(
                                *self,
                                spec_orbit_time(start, duration, j),
                                spec_orbit_pos(
                                    cur,
                                    radius,
                                    speed,
                                    start,
                                    spec_orbit_time(start, duration, j),
                                ),
                                cur,
                            ),
                    decreases 9 - i,
                {
                    let t = sat_add(start, crate::fixed::tdiv64(sat_mul(duration, i as i64), 8));
                    let elapsed = sat_sub(t, start);
                    let angle = fx_mul(speed, elapsed);
                    let pos = Vec3Milli {
                        x: sat_add(cur.target.x, fx_mul(radius, cos_milli(angle))),
                        y: cur.position.y,
                        z: sat_add(cur.target.z, fx_mul(radius, sin_milli(angle))),
                    };
                    proof {
                        assert(t == spec_orbit_time(start, duration, i as int));
                        assert(pos == spec_orbit_pos(cur, radius, speed, start, t));
                    }
                    let ghost pre = *self;
                    self.add_keyframe(t, pos, cur.target, cur.fov);
                    proof {
                        assert forall|j: int| 0 <= j < i + 1 implies #[trigger] spec_orbit_keyed(
                            *self,
                            spec_orbit_time(start, duration, j),
                            spec_orbit_pos(
                                cur,
                                radius,
                                speed,
                                start,
                                spec_orbit_time(start, duration, j),
                            ),
                            cur,
                        ) by {
                            let tj = spec_orbit_time(start, duration, j);
                            let pj = spec_orbit_pos(cur, radius, speed, start, tj);
                            if j == i as int {
                                assert(tj == t && pj == pos);
                                assert(spec_orbit_keyed(*self, t, pos, cur));
                            } else {
                                assert(spec_orbit_keyed(pre, tj, pj, cur));
                                if tj == t {
                                    assert(pj == pos);
                                    assert(spec_orbit_keyed(*self, t, pos, cur));
                                } else {
                                    assert(self.position_x.samples@.contains(
                                        Keyframe { time: tj, value: pj.x },
                                    ));
                                    assert(self.position_y.samples@.contains(
                                        Keyframe { time: tj, value: pj.y },
                                    ));
                                    assert(self.position_z.samples@.contains(
                                        Keyframe { time: tj, value: pj.z },
                                    ));
                                    assert(self.target_x.samples@.contains(
                                        Keyframe { time: tj, value: cur.target.x },
                                    ));
                                    assert(self.target_y.samples@.contains(
                                        Keyframe { time: tj, value: cur.target.y },
                                    ));
                                    assert(self.target_z.samples@.contains(
                                        Keyframe { time: tj, value: cur.target.z },
                                    ));
                                    assert(self.fov_track.samples@.contains(
                                        Keyframe { time: tj, value: cur.fov },
                                    ));
                                }
                            }
                        }
                    }
                    i = i + 1;
                }
            },
            CameraWork::Shake { amplitude, frequency } => {
                self.shake_amplitude = amplitude;
                self.shake_frequency = frequency;
            },
        }
    }
}

/// The time of orbit sample `i`: nine evenly spaced times across the
/// preset window.
pub open spec fn spec_orbit_time(start: i64, duration: i64, i: int) -> i64 {
    sat64(start + tdiv(sat64(duration * i), 8)) as i64
}

/// The orbit position keyed at time `t`: a circle of the configured radius
/// around the target in the horizontal plane, at the height recorded at
/// the preset's start.
pub open spec fn spec_orbit_pos(
    cur: CameraState,
    radius: i64,
    speed: i64,
    start: i64,
    t: i64,
) -> Vec3Milli {
    let angle = spec_fx_mul(speed as int, sat64(t - start));
    Vec3Milli {
        x: sat64(cur.target.x + spec_fx_mul(radius as int, spec_cos_milli(angle))) as i64,
        y: cur.position.y,
        z: sat64(cur.target.z + spec_fx_mul(radius as int, spec_sin_milli(angle))) as i64,
    }
}

/// Every channel of the track carries a sample at `t` keying the orbit
/// position, the unchanged target, and the unchanged field of view.
pub open spec fn spec_orbit_keyed(
    c: CameraTrack,
    t: i64,
    pos: Vec3Milli,
    cur: CameraState,
) -> bool {
    spec_state_keyed(c, t, pos, cur.target, cur.fov)
}

/// Every channel of the track carries a sample at `t` keying the given
/// position, target and field of view.
pub open spec fn spec_state_keyed(
    c: CameraTrack,
    t: i64,
    pos: Vec3Milli,
    tgt: Vec3Milli,
    fov: i64,
) -> bool {
    &&& c.position_x.samples@.contains(Keyframe { time: t, value: pos.x })
    &&& c.position_y.samples@.contains(Keyframe { time: t, value: pos.y })
    &&& c.position_z.samples@.contains(Keyframe { time: t, value: pos.z })
    &&& c.target_x.samples@.contains(Keyframe { time: t, value: tgt.x })
    &&& c.target_y.samples@.contains(Keyframe { time: t, value: tgt.y })
    &&& c.target_z.samples@.contains(Keyframe { time: t, value: tgt.z })
    &&& c.fov_track.samples@.contains(Keyframe { time: t, value: fov })
}

/// With shake inactive, evaluating at a time where every channel carries a
/// sample yields exactly the sampled values.
pub proof fn lemma_eval_at_keyed(
    c: CameraTrack,
    t: i64,
    px: i64,
    py: i64,
    pz: i64,
    tx: i64,
    ty: i64,
    tz: i64,
    fv: i64,
)
    requires
        c.wf(),
        c.shake_amplitude <= 0,
        c.position_x.samples@.contains(Keyframe { time: t, value: px }),
        c.position_y.samples@.contains(Keyframe { time: t, value: py }),
        c.position_z.samples@.contains(Keyframe { time: t, value: pz }),
        c.target_x.samples@.contains(Keyframe { time: t, value: tx }),
        c.target_y.samples@.contains(Keyframe { time: t, value: ty }),
        c.target_z.samples@.contains(Keyframe { time: t, value: tz }),
        c.fov_track.samples@.contains(Keyframe { time: t, value: fv }),
    ensures
        c.spec_evaluate(t as int) == (CameraState {
            position: Vec3Milli { x: px, y: py, z: pz },
            target: Vec3Milli { x: tx, y: ty, z: tz },
            fov: fv,
        }),
{
    let k1 = Keyframe { time: t, value: px };
    let s1 = c.position_x.samples@;
    lemma_eval_at_sample(s1, choose|j: int| 0 <= j < s1.len() && s1[j] == k1);
    let k2 = Keyframe { time: t, value: py };
    let s2 = c.position_y.samples@;
    lemma_eval_at_sample(s2, choose|j: int| 0 <= j < s2.len() && s2[j] == k2);
    let k3 = Keyframe { time: t, value: pz };
    let s3 = c.position_z.samples@;
    lemma_eval_at_sample(s3, choose|j: int| 0 <= j < s3.len() && s3[j] == k3);
    let k4 = Keyframe { time: t, value: tx };
    let s4 = c.target_x.samples@;
    lemma_eval_at_sample(s4, choose|j: int| 0 <= j < s4.len() && s4[j] == k4);
    let k5 = Keyframe { time: t, value: ty };
    let s5 = c.target_y.samples@;
    lemma_eval_at_sample(s5, choose|j: int| 0 <= j < s5.len() && s5[j] == k5);
    let k6 = Keyframe { time: t, value: tz };
    let s6 = c.target_z.samples@;
    lemma_eval_at_sample(s6, choose|j: int| 0 <= j < s6.len() && s6[j] == k6);
    let k7 = Keyframe { time: t, value: fv };
    let s7 = c.fov_track.samples@;
    lemma_eval_at_sample(s7, choose|j: int| 0 <= j < s7.len() && s7[j] == k7);
}

impl Default for CameraTrack {
    /// A track with one keyframe at time zero in each channel, holding the
    /// default camera state, and shake off.
    fn default() -> (r: CameraTrack)
        ensures
            r.wf(),
            r.position_x.samples@ =~= seq![Keyframe { time: 0, value: 0 }],
            r.position_y.samples@ =~= seq![Keyframe { time: 0, value: 0 }],
            r.position_z.samples@ =~= seq![Keyframe { time: 0, value: DEFAULT_POS_Z as i64 }],
            r.target_x.samples@ =~= seq![Keyframe { time: 0, value: 0 }],
            r.target_y.samples@ =~= seq![Keyframe { time: 0, value: 0 }],
            r.target_z.samples@ =~= seq![Keyframe { time: 0, value: 0 }],
            r.fov_track.samples@ =~= seq![Keyframe { time: 0, value: DEFAULT_FOV as i64 }],
            r.shake_amplitude == 0,
            r.shake_frequency == 0,
    {
        let mut px = Track::new("position.x");
        px.add_keyframe(0, 0);
        let mut py = Track::new("position.y");
        py.add_keyframe(0, 0);
        let mut pz = Track::new("position.z");
        pz.add_keyframe(0, DEFAULT_POS_Z);
        let mut tx = Track::new("target.x");
        tx.add_keyframe(0, 0);
        let mut ty = Track::new("target.y");
        ty.add_keyframe(0, 0);
        let mut tz = Track::new("target.z");
        tz.add_keyframe(0, 0);
        let mut fov = Track::new("fov");
        fov.add_keyframe(0, DEFAULT_FOV);
        proof {
            lemma_singleton_channel(px.samples@, 0, 0);
            lemma_singleton_channel(py.samples@, 0, 0);
            lemma_singleton_channel(pz.samples@, 0, DEFAULT_POS_Z);
            lemma_singleton_channel(tx.samples@, 0, 0);
            lemma_singleton_channel(ty.samples@, 0, 0);
            lemma_singleton_channel(tz.samples@, 0, 0);
            lemma_singleton_channel(fov.samples@, 0, DEFAULT_FOV);
        }
        CameraTrack {
            position_x: px,
            position_y: py,
            position_z: pz,
            target_x: tx,
            target_y: ty,
            target_z: tz,
            fov_track: fov,
            shake_amplitude: 0,
            shake_frequency: 0,
        }
    }
}

/// A sorted channel whose every element is one fixed sample, and which
/// contains it, is exactly the singleton of that sample.
proof fn lemma_singleton_channel(s: Seq<Keyframe>, time: i64, value: i64)
    requires
        crate::track::spec_sorted(s),
        s.contains(Keyframe { time, value }),
        forall|k: Keyframe| s.contains(k) ==> k == (Keyframe { time, value }),
    ensures
        s =~= seq![Keyframe { time, value }],
{
    assert(s.len() >= 1);
    if s.len() > 1 {
        assert(s.contains(s[0]));
        assert(s.contains(s[1]));
        assert(s[0].time < s[1].time);
        assert(false);
    }
    assert(s.contains(s[0]));
}

/// Distortion families for fake-perspective effects.
#[derive(Debug, Clone, Copy, PartialEq, Eq, Structural)]
pub enum DistortionType {
    /// Projective foreshortening.
    Projective,
    /// Free-form lattice deformation.
    Lattice,
    /// Barrel or fisheye variant of the projective warp.
    Fisheye,
}

/// Fake-perspective configuration: a named distortion with one strength
/// scalar. The distortion parameters are computed here; wrapping a shape
/// value in the distortion operator is the renderer adapter's concern.
#[derive(Debug, Clone)]
pub struct FakePerspective {
    pub name: String,
    pub distortion_type: DistortionType,
    pub strength: i64,
}

/// The parameters of a distortion operator, derived from one strength
/// scalar: either a 4x4 projective matrix in row-major order with a
/// Lipschitz bound, or a 2x2x2 control lattice with its bounding box.
#[derive(Debug, Clone)]
pub enum DistortionParams {
    Projective { inv_matrix: Vec<i64>, lipschitz_bound: i64 },
    Lattice {
        control_points: Vec<Vec3Milli>,
        nx: u32,
        ny: u32,
        nz: u32,
        bbox_min: Vec3Milli,
        bbox_max: Vec3Milli,
    },
}

impl FakePerspective {
    /// Build a fake-perspective configuration.
    pub fn new(name: &str, distortion_type: DistortionType, strength: i64) -> (r: FakePerspective)
        ensures
            r.name@ == name@,
            r.distortion_type == distortion_type,
            r.strength == strength,
    {
        FakePerspective {
            name: <String as vstd::string::StringExecFns>::from_str(name),
            distortion_type,
            strength,
        }
    }

    /// The parameters of the configured distortion operator.
    ///
    /// Projective: identity matrix with `strength / 10` in the perspective
    /// cell, bound `1 + |strength|`. Fisheye: diagonal stretched by
    /// `strength / 5`, bound `1 + 0.3 * |strength|`. Lattice: near plane at
    /// the unit cube corners, far plane corners pushed out by `strength`.
    pub fn distortion_params(&self) -> (r: DistortionParams)
        ensures
            self.distortion_type == DistortionType::Projective ==> (r matches
                DistortionParams::Projective { inv_matrix, lipschitz_bound } && inv_matrix@
                =~= spec_projective_matrix(self.strength as int) && lipschitz_bound == sat64(
                SCALE + spec_abs(self.strength as int),
            )),
            self.distortion_type == DistortionType::Fisheye ==> (r matches
                DistortionParams::Projective { inv_matrix, lipschitz_bound } && inv_matrix@
                =~= spec_fisheye_matrix(self.strength as int) && lipschitz_bound == sat64(
                SCALE + spec_fx_mul(spec_abs(self.strength as int), 300),
            )),
            self.distortion_type == DistortionType::Lattice ==> (r matches
                DistortionParams::Lattice { control_points, nx, ny, nz, bbox_min, bbox_max }
                && control_points@ =~= spec_lattice_points(self.strength as int) && nx == 2 && ny
                == 2 && nz == 2 && bbox_min == (Vec3Milli { x: -2000i64, y: -2000i64, z: -2000i64 })
                && bbox_max == (Vec3Milli { x: 2000i64, y: 2000i64, z: 2000i64 })),
    {
        let s = self.strength;
        let abs_s = if s >= 0 {
            s
        } else if s == i64::MIN {
            i64::MAX
        } else {
            -s
        };
        match self.distortion_type {
            DistortionType::Projective => {
                let mut m: Vec<i64> = Vec::new();
                m.push(SCALE);
                m.push(0);
                m.push(0);
                m.push(0);
                m.push(0);
                m.push(SCALE);
                m.push(0);
                m.push(0);
                m.push(0);
                m.push(0);
                m.push(SCALE);
                m.push(fx_mul(s, 100));
                m.push(0);
                m.push(0);
                m.push(0);
                m.push(SCALE);
                DistortionParams::Projective {
                    inv_matrix: m,
                    lipschitz_bound: sat_add(SCALE, abs_s),
                }
            },
            DistortionType::Fisheye => {
                let d = sat_add(SCALE, fx_mul(s, 200));
                let mut m: Vec<i64> = Vec::new();
                m.push(d);
                m.push(0);
                m.push(0);
                m.push(0);
                m.push(0);
                m.push(d);
                m.push(0);
                m.push(0);
                m.push(0);
                m.push(0);
                m.push(SCALE);
                m.push(0);
                m.push(0);
                m.push(0);
                m.push(0);
                m.push(SCALE);
                DistortionParams::Projective {
                    inv_matrix: m,
                    lipschitz_bound: sat_add(SCALE, fx_mul(abs_s, 300)),
                }
            },
            DistortionType::Lattice => {
                let lo = sat_sub(-SCALE, s);
                let hi = sat_add(SCALE, s);
                let mut cp: Vec<Vec3Milli> = Vec::new();
                cp.push(Vec3Milli { x: -SCALE, y: -SCALE, z: -SCALE });
                cp.push(Vec3Milli { x: SCALE, y: -SCALE, z: -SCALE });
                cp.push(Vec3Milli { x: -SCALE, y: SCALE, z: -SCALE });
                cp.push(Vec3Milli { x: SCALE, y: SCALE, z: -SCALE });
                cp.push(Vec3Milli { x: lo, y: lo, z: SCALE });
                cp.push(Vec3Milli { x: hi, y: lo, z: SCALE });
                cp.push(Vec3Milli { x: lo, y: hi, z: SCALE });
                cp.push(Vec3Milli { x: hi, y: hi, z: SCALE });
                DistortionParams::Lattice {
                    control_points: cp,
                    nx: 2,
                    ny: 2,
                    nz: 2,
                    bbox_min: Vec3Milli { x: -2000, y: -2000, z: -2000 },
                    bbox_max: Vec3Milli { x: 2000, y: 2000, z: 2000 },
                }
            },
        }
    }
}

/// Absolute value saturated into the `i64` range.
pub open spec fn spec_abs(x: int) -> int {
    if x >= 0 {
        x
    } else {
        sat64(-x)
    }
}

/// Row-major projective matrix for the foreshortening warp.
pub open spec fn spec_projective_matrix(s: int) -> Seq<i64> {
    seq![
        SCALE as i64, 0, 0, 0,
        0, SCALE as i64, 0, 0,
        0, 0, SCALE as i64, spec_fx_mul(s, 100) as i64,
        0, 0, 0, SCALE as i64,
    ]
}

/// Row-major matrix for the fisheye variant.
pub open spec fn spec_fisheye_matrix(s: int) -> Seq<i64> {
    let d = sat64(SCALE + spec_fx_mul(s, 200)) as i64;
    seq![
        d, 0, 0, 0,
        0, d, 0, 0,
        0, 0, SCALE as i64, 0,
        0, 0, 0, SCALE as i64,
    ]
}

/// The eight control points of the 2x2x2 lattice: a unit near plane and a
/// far plane pushed out by the strength.
pub open spec fn spec_lattice_points(s: int) -> Seq<Vec3Milli> {
    let lo = sat64(-SCALE - s) as i64;
    let hi = sat64(SCALE + s) as i64;
    seq![
        Vec3Milli { x: -SCALE as i64, y: -SCALE as i64, z: -SCALE as i64 },
        Vec3Milli { x: SCALE as i64, y: -SCALE as i64, z: -SCALE as i64 },
        Vec3Milli { x: -SCALE as i64, y: SCALE as i64, z: -SCALE as i64 },
        Vec3Milli { x: SCALE as i64, y: SCALE as i64, z: -SCALE as i64 },
        Vec3Milli { x: lo, y: lo, z: SCALE as i64 },
        Vec3Milli { x: hi, y: lo, z: SCALE as i64 },
        Vec3Milli { x: lo, y: hi, z: SCALE as i64 },
        Vec3Milli { x: hi, y: hi, z: SCALE as i64 },
    ]
}

} // verus!
