//! Keyframe channels: named tracks of `(time, value)` samples kept sorted by
//! time, evaluated by piecewise linear interpolation with clamping at both
//! ends. Inserting a sample at an already-present time replaces its value,
//! so a track is a function from time to value.
//!
//! Linear interpolation with clamping is the collaborator contract this
//! engine relies on; stepped or eased interpolation modes and looping
//! playback are not part of this model.

use vstd::prelude::*;

use crate::fixed::{sat64, sat_add, sat_sub, tdiv};
use crate::strings::str_eq;

verus! {

/// One sample of a channel: a time and a value, both in milli-units.
#[derive(Debug, Clone, Copy, PartialEq, Eq, Structural)]
pub struct Keyframe {
    pub time: i64,
    pub value: i64,
}

/// A named channel of samples sorted by strictly increasing time.
#[derive(Debug, Clone)]
pub struct Track {
    pub name: String,
    pub samples: Vec<Keyframe>,
}

/// Samples are sorted by strictly increasing time.
pub open spec fn spec_sorted(s: Seq<Keyframe>) -> bool {
    forall|i: int, j: int| 0 <= i < j < s.len() ==> s[i].time < s[j].time
}

/// Linear interpolation between two samples, truncating, saturating.
pub open spec fn spec_lerp(a: Keyframe, b: Keyframe, t: int) -> int
    recommends
        a.time < b.time,
{
    sat64(
        a.value + sat64(
            tdiv(sat64(b.value - a.value) * (t - a.time), b.time as int - a.time as int),
        ),
    )
}

/// Evaluation of a non-empty suffix whose first sample lies at or before `t`.
pub open spec fn spec_eval_seg(s: Seq<Keyframe>, t: int) -> int
    recommends
        s.len() >= 1,
    decreases s.len(),
{
    if s.len() <= 1 {
        s[0].value as int
    } else if t < s[1].time {
        spec_lerp(s[0], s[1], t)
    } else {
        spec_eval_seg(s.subrange(1, s.len() as int), t)
    }
}

/// Full evaluation rule: empty tracks have no value; times at or before the
/// first sample clamp to it; later times interpolate within the surrounding
/// pair, clamping to the last sample beyond the end.
pub open spec fn spec_track_eval(s: Seq<Keyframe>, t: int) -> Option<int> {
    if s.len() == 0 {
        None
    } else if t <= s[0].time {
        Some(s[0].value as int)
    } else {
        Some(spec_eval_seg(s, t))
    }
}

/// Evaluating exactly at a sample's time yields that sample's value.
pub proof fn lemma_eval_at_sample(s: Seq<Keyframe>, i: int)
    requires
        spec_sorted(s),
        0 <= i < s.len(),
    ensures
        spec_track_eval(s, s[i].time as int) == Some(s[i].value as int),
    decreases i,
{
    let t = s[i].time as int;
    if i == 0 {
    } else {
        assert(s[0].time < s[i].time);
        if i == 1 {
            if s.len() == 2 {
                assert(spec_eval_seg(s, t) == spec_eval_seg(s.subrange(1, s.len() as int), t));
                assert(s.subrange(1, s.len() as int)[0] == s[1]);
            } else {
                let s1 = s.subrange(1, s.len() as int);
                assert(s1[0] == s[1] && s1[1] == s[2]);
                assert(spec_eval_seg(s, t) == spec_eval_seg(s1, t));
                assert(t < s1[1].time);
                assert(spec_eval_seg(s1, t) == spec_lerp(s1[0], s1[1], t));
                assert(tdiv(sat64(s1[1].value - s1[0].value) * (t - s1[0].time), s1[1].time as int
                    - s1[0].time as int) == 0);
            }
        } else {
            let s1 = s.subrange(1, s.len() as int);
            assert(spec_sorted(s1)) by {
                assert(forall|p: int, q: int|
                    0 <= p < q < s1.len() ==> s1[p] == s[p + 1] && s1[q] == s[q + 1]);
            }
            lemma_eval_at_sample(s1, i - 1);
            assert(s1[i - 1] == s[i]);
            assert(s1[0] == s[1]);
            assert(t >= s[1].time);
            assert(spec_eval_seg(s, t) == spec_eval_seg(s1, t));
            if t <= s1[0].time {
                assert(t == s1[0].time);
                assert(i - 1 == 0);
            }
        }
    }
}

/// Linear interpolation between two samples.
fn lerp(a: Keyframe, b: Keyframe, t: i64) -> (r: i64)
    requires
        a.time < b.time,
    ensures
        r == spec_lerp(a, b, t as int),
{
    let dv: i64 = sat_sub(b.value, a.value);
    let dt: i128 = (t as i128) - (a.time as i128);
    let span: i128 = (b.time as i128) - (a.time as i128);
    proof {
        assert((dv as i128) * dt > i128::MIN && (dv as i128) * dt < i128::MAX)
            by (nonlinear_arith)
            requires
                -0x8000000000000000 <= dv as i128 <= 0x7fffffffffffffff,
                -0x10000000000000000i128 < dt < 0x10000000000000000i128,
        ;
    }
    let num: i128 = (dv as i128) * dt;
    let q: i128 = if num >= 0 {
        num / span
    } else {
        -((-num) / span)
    };
    assert(q == tdiv(num as int, span as int));
    let qs: i64 = if q > i64::MAX as i128 {
        i64::MAX
    } else if q < i64::MIN as i128 {
        i64::MIN
    } else {
        q as i64
    };
    sat_add(a.value, qs)
}

impl Track {
    /// All invariants of a well-formed track.
    pub open spec fn wf(&self) -> bool {
        spec_sorted(self.samples@)
    }

    /// Create an empty channel with a name.
    pub fn new(name: &str) -> (r: Track)
        ensures
            r.wf(),
            r.samples@.len() == 0,
            r.name@ == name@,
    {
        Track { name: <String as vstd::string::StringExecFns>::from_str(name), samples: Vec::new() }
    }

    /// Number of samples.
    pub fn len(&self) -> (r: usize)
        ensures
            r == self.samples@.len(),
    {
        self.samples.len()
    }

    /// Time of the last sample, or zero for an empty track.
    pub fn duration(&self) -> (r: i64)
        ensures
            self.samples@.len() == 0 ==> r == 0,
            self.samples@.len() > 0 ==> r == self.samples@.last().time,
    {
        if self.samples.len() == 0 {
            0
        } else {
            self.samples[self.samples.len() - 1].time
        }
    }

    /// Insert a sample, keeping times sorted; a sample at an identical time
    /// is replaced.
    pub fn add_keyframe(&mut self, time: i64, value: i64)
        requires
            old(self).wf(),
        ensures
            final(self).wf(),
            final(self).name@ == old(self).name@,
            final(self).samples@.contains(Keyframe { time, value }),
            forall|k: Keyframe|
                old(self).samples@.contains(k) && k.time != time ==> final(self).samples@.contains(k),
            forall|k: Keyframe|
                final(self).samples@.contains(k) ==> (k == Keyframe { time, value } || (old(
                    self,
                ).samples@.contains(k) && k.time != time)),
    {
        let ghost old_samples = self.samples@;
        let mut i: usize = 0;
        while i < self.samples.len() && self.samples[i].time < time
            invariant
                self.samples@ == old_samples,
                i <= self.samples@.len(),
                forall|j: int| 0 <= j < i ==> self.samples@[j].time < time,
            decreases self.samples@.len() - i,
        {
            i = i + 1;
        }
        let k = Keyframe { time, value };
        if i < self.samples.len() && self.samples[i].time == time {
            self.samples[i] = k;
            proof {
                assert(self.samples@[i as int] == k);
                assert(self.samples@.contains(k));
                assert forall|x: Keyframe|
                    old_samples.contains(x) && x.time != time implies self.samples@.contains(
                    x,
                ) by {
                    let j = choose|j: int| 0 <= j < old_samples.len() && old_samples[j] == x;
                    assert(self.samples@[j] == x);
                }
                assert forall|x: Keyframe| self.samples@.contains(x) implies (x == k || (
                old_samples.contains(x) && x.time != time)) by {
                    let j = choose|j: int|
                        0 <= j < self.samples@.len() && self.samples@[j] == x;
                    if j != i {
                        assert(old_samples[j] == x);
                        assert(spec_sorted(old_samples));
                        if j < i {
                            assert(old_samples[j].time < time);
                        } else {
                            assert(old_samples[i as int].time < old_samples[j].time);
                        }
                    }
                }
            }
        } else {
            proof {
                if i < self.samples@.len() {
                    assert(self.samples@[i as int].time > time);
                }
            }
            self.samples.insert(i, k);
            proof {
                assert(self.samples@[i as int] == k);
                assert(self.samples@.contains(k));
                assert(spec_sorted(self.samples@)) by {
                    assert forall|p: int, q: int|
                        0 <= p < q < self.samples@.len() implies self.samples@[p].time
                        < self.samples@[q].time by {
                        if p < i && q < i {
                            assert(self.samples@[p] == old_samples[p]);
                            assert(self.samples@[q] == old_samples[q]);
                        } else if p < i && q == i {
                        } else if p < i && q > i {
                            assert(self.samples@[q] == old_samples[q - 1]);
                            assert(old_samples[p].time < time);
                            assert(q - 1 >= i);
                            if q - 1 == i {
                                assert(old_samples[q - 1].time > time);
                            } else {
                                assert(old_samples[i as int].time > time);
                                assert(old_samples[i as int].time <= old_samples[q - 1].time);
                            }
                        } else if p == i {
                            assert(self.samples@[q] == old_samples[q - 1]);
                            assert(q - 1 >= i);
                            if q - 1 == i {
                                assert(old_samples[q - 1].time > time);
                            } else {
                                assert(old_samples[i as int].time > time);
                                assert(old_samples[i as int].time < old_samples[q - 1].time);
                            }
                        } else {
                            assert(self.samples@[p] == old_samples[p - 1]);
                            assert(self.samples@[q] == old_samples[q - 1]);
                        }
                    }
                }
                assert forall|x: Keyframe|
                    old_samples.contains(x) && x.time != time implies self.samples@.contains(
                    x,
                ) by {
                    let j = choose|j: int| 0 <= j < old_samples.len() && old_samples[j] == x;
                    if j < i {
                        assert(self.samples@[j] == x);
                    } else {
                        assert(self.samples@[j + 1] == x);
                    }
                }
                assert forall|x: Keyframe| self.samples@.contains(x) implies (x == k || (
                old_samples.contains(x) && x.time != time)) by {
                    let j = choose|j: int|
                        0 <= j < self.samples@.len() && self.samples@[j] == x;
                    if j < i {
                        assert(old_samples[j] == x);
                        assert(x.time < time);
                    } else if j > i {
                        assert(old_samples[j - 1] == x);
                        if j - 1 == i {
                            assert(x.time > time);
                        } else {
                            assert(old_samples[i as int].time > time);
                            assert(old_samples[i as int].time < x.time);
                        }
                    }
                }
            }
        }
    }

    /// Evaluate the channel at a time; `None` when the track is empty.
    pub fn evaluate(&self, t: i64) -> (r: Option<i64>)
        requires
            self.wf(),
        ensures
            match r {
                Some(v) => spec_track_eval(self.samples@, t as int) == Some(v as int),
                None => self.samples@.len() == 0,
            },
    {
        let n = self.samples.len();
        if n == 0 {
            return None;
        }
        if t <= self.samples[0].time {
            return Some(self.samples[0].value);
        }
        proof {
            assert(self.samples@.subrange(0, n as int) =~= self.samples@);
        }
        let mut i: usize = 0;
        while i + 1 < n && t >= self.samples[i + 1].time
            invariant
                self.wf(),
                n == self.samples@.len(),
                0 < n,
                i < n,
                t >= self.samples@[i as int].time,
                spec_track_eval(self.samples@, t as int) == Some(
                    spec_eval_seg(self.samples@.subrange(i as int, n as int), t as int),
                ),
            decreases n - i,
    {
            proof {
                let s = self.samples@;
                let cur = s.subrange(i as int, n as int);
                let nxt = s.subrange(i + 1, n as int);
                assert(cur[1] == s[i + 1]);
                assert(cur.len() >= 2);
                assert(cur.subrange(1, cur.len() as int) =~= nxt);
                assert(spec_eval_seg(cur, t as int) == spec_eval_seg(nxt, t as int));
            }
            i = i + 1;
        }
        let ghost s = self.samples@;
        let ghost cur = s.subrange(i as int, n as int);
        if i + 1 == n {
            proof {
                assert(cur.len() == 1);
                assert(cur[0] == s[i as int]);
            }
            Some(self.samples[i].value)
        } else {
            proof {
                assert(cur[0] == s[i as int]);
                assert(cur[1] == s[i + 1]);
                assert(t < s[i + 1].time);
                assert(s[i as int].time < s[i + 1].time);
            }
            Some(lerp(self.samples[i], self.samples[i + 1], t))
        }
    }

    /// Evaluate with a fallback for empty tracks.
    pub fn evaluate_or(&self, t: i64, fallback: i64) -> (r: i64)
        requires
            self.wf(),
        ensures
            r as int == spec_track_eval_or(self.samples@, t as int, fallback as int),
    {
        match self.evaluate(t) {
            Some(v) => v,
            None => fallback,
        }
    }
}

/// Evaluation with a fallback value for empty channels.
pub open spec fn spec_track_eval_or(s: Seq<Keyframe>, t: int, fallback: int) -> int {
    match spec_track_eval(s, t) {
        Some(v) => v,
        None => fallback,
    }
}

/// A named bundle of tracks.
#[derive(Debug, Clone)]
pub struct Timeline {
    pub name: String,
    pub tracks: Vec<Track>,
}

impl Timeline {
    /// All tracks are well-formed.
    pub open spec fn wf(&self) -> bool {
        forall|i: int| 0 <= i < self.tracks@.len() ==> (#[trigger] self.tracks@[i]).wf()
    }

    /// The index of the first track with the given name.
    pub open spec fn spec_find_track(&self, name: Seq<char>) -> Option<int> {
        if exists|i: int| 0 <= i < self.tracks@.len() && (#[trigger] self.tracks@[i]).name@ == name {
            Some(
                choose|i: int|
                    0 <= i < self.tracks@.len() && (#[trigger] self.tracks@[i]).name@ == name
                        && forall|j: int|
                        0 <= j < i ==> (#[trigger] self.tracks@[j]).name@ != name,
            )
        } else {
            None
        }
    }

    /// Create an empty timeline.
    pub fn new(name: &str) -> (r: Timeline)
        ensures
            r.wf(),
            r.tracks@.len() == 0,
            r.name@ == name@,
    {
        Timeline { name: <String as vstd::string::StringExecFns>::from_str(name), tracks: Vec::new() }
    }

    /// Append a track.
    pub fn add_track(&mut self, track: Track)
        requires
            old(self).wf(),
            track.wf(),
        ensures
            final(self).wf(),
            final(self).name@ == old(self).name@,
            final(self).tracks@ == old(self).tracks@.push(track),
    {
        self.tracks.push(track);
    }

    /// Evaluate the first track with the given name; `None` when no track
    /// has that name or the track is empty.
    pub fn get_value(&self, track_name: &str, t: i64) -> (r: Option<i64>)
        requires
            self.wf(),
        ensures
            match r {
                Some(v) => exists|i: int|
                    0 <= i < self.tracks@.len() && (#[trigger] self.tracks@[i]).name@
                        == track_name@ && spec_track_eval(self.tracks@[i].samples@, t as int)
                        == Some(v as int),
                None => true,
            },
    {
        let mut i: usize = 0;
        while i < self.tracks.len()
            invariant
                self.wf(),
                i <= self.tracks@.len(),
            decreases self.tracks@.len() - i,
        {
            if str_eq(self.tracks[i].name.as_str(), track_name) {
                return self.tracks[i].evaluate(t);
            }
            i = i + 1;
        }
        None
    }
}

} // verus!
