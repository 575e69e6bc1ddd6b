//! Director: owns all cuts in a sequence sorted by start time, resolves the
//! active cut at a query time by binary search over the half-open cut
//! windows, and evaluates the camera of the active cut at cut-local time.

use vstd::prelude::*;

use crate::camera::{CameraState, CameraTrack, spec_default_camera_state};
use crate::fixed::{sat64, sat_sub, tdiv, SCALE};
use crate::scene::{ActorId, SceneGraph};

verus! {

/// Unique cut identifier.
#[derive(Debug, Clone, Copy, PartialEq, Eq, Hash, Structural)]
pub struct CutId(pub u32);

/// A single cut: a camera track and an active-actor set within a half-open
/// time window `[start_time, end_time)`.
#[derive(Debug, Clone)]
pub struct Cut {
    pub name: String,
    pub start_time: i64,
    pub end_time: i64,
    pub camera: CameraTrack,
    pub active_actors: Vec<ActorId>,
    /// Precomputed reciprocal of the duration; maintained by [`Cut::new`].
    pub rcp_duration: i64,
}

/// The precomputed reciprocal of a window's duration, in milli-units; zero
/// for degenerate (empty or negative) windows, so it is never divided by.
pub open spec fn spec_rcp(start: i64, end: i64) -> int {
    if end - start > 0 {
        tdiv((SCALE * SCALE) as int, end - start)
    } else {
        0
    }
}

/// The half-open window rule: a cut is active at `t` when
/// `start_time <= t < end_time`.
pub open spec fn spec_contains_time(c: Cut, t: int) -> bool {
    c.start_time <= t < c.end_time
}

impl Cut {
    /// The camera track is well-formed.
    pub open spec fn wf(&self) -> bool {
        self.camera.wf()
    }

    /// A cut over `[start, end)` with the default camera track (one
    /// keyframe at time zero per channel holding the default state, shake
    /// off) and no actors.
    pub fn new(name: &str, start: i64, end: i64) -> (r: Cut)
        ensures
            r.wf(),
            r.name@ == name@,
            r.start_time == start,
            r.end_time == end,
            r.active_actors@.len() == 0,
            r.rcp_duration == spec_rcp(start, end),
            r.camera.position_x.samples@ =~= seq![crate::track::Keyframe { time: 0, value: 0 }],
            r.camera.position_y.samples@ =~= seq![crate::track::Keyframe { time: 0, value: 0 }],
            r.camera.position_z.samples@ =~= seq![
                crate::track::Keyframe { time: 0, value: crate::camera::DEFAULT_POS_Z as i64 },
            ],
            r.camera.target_x.samples@ =~= seq![crate::track::Keyframe { time: 0, value: 0 }],
            r.camera.target_y.samples@ =~= seq![crate::track::Keyframe { time: 0, value: 0 }],
            r.camera.target_z.samples@ =~= seq![crate::track::Keyframe { time: 0, value: 0 }],
            r.camera.fov_track.samples@ =~= seq![
                crate::track::Keyframe { time: 0, value: crate::camera::DEFAULT_FOV as i64 },
            ],
            r.camera.shake_amplitude == 0,
            r.camera.shake_frequency == 0,
    {
        let dur: i128 = (end as i128) - (start as i128);
        let rcp: i64 = if dur > 0 {
            let q = ((SCALE as i128) * (SCALE as i128)) / dur;
            proof {
                assert(q == tdiv((SCALE * SCALE) as int, end - start));
            }
            q as i64
        } else {
            0
        };
        Cut {
            name: <String as vstd::string::StringExecFns>::from_str(name),
            start_time: start,
            end_time: end,
            camera: CameraTrack::default(),
            active_actors: Vec::new(),
            rcp_duration: rcp,
        }
    }

    /// Duration of the window (saturating).
    pub fn duration(&self) -> (r: i64)
        ensures
            r == sat64(self.end_time - self.start_time),
    {
        sat_sub(self.end_time, self.start_time)
    }

    /// The precomputed reciprocal of the duration.
    pub fn rcp_duration(&self) -> (r: i64)
        ensures
            r == self.rcp_duration,
    {
        self.rcp_duration
    }

    /// Whether the half-open window contains `time`.
    pub fn contains_time(&self, time: i64) -> (r: bool)
        ensures
            r == spec_contains_time(*self, time as int),
    {
        time >= self.start_time && time < self.end_time
    }

    /// Replace the camera track.
    pub fn with_camera(self, camera: CameraTrack) -> (r: Cut)
        requires
            camera.wf(),
        ensures
            r == (Cut { camera, ..self }),
            r.wf(),
    {
        Cut { camera, ..self }
    }

    /// Replace the active-actor set.
    pub fn with_actors(self, actors: Vec<ActorId>) -> (r: Cut)
        requires
            self.wf(),
        ensures
            r == (Cut { active_actors: actors, ..self }),
            r.wf(),
    {
        Cut { active_actors: actors, ..self }
    }
}

/// A scene: a named, ordered group of cut identities (organizational only;
/// not used in time resolution).
#[derive(Debug, Clone)]
pub struct Scene {
    pub name: String,
    pub cuts: Vec<CutId>,
}

impl Scene {
    /// An empty named scene.
    pub fn new(name: &str) -> (r: Scene)
        ensures
            r.name@ == name@,
            r.cuts@.len() == 0,
    {
        Scene { name: <String as vstd::string::StringExecFns>::from_str(name), cuts: Vec::new() }
    }
}

/// The top-level naming container: a sequence of scenes.
#[derive(Debug, Clone)]
pub struct Episode {
    pub name: String,
    pub scenes: Vec<Scene>,
}

impl Episode {
    /// An empty named episode.
    pub fn new(name: &str) -> (r: Episode)
        ensures
            r.name@ == name@,
            r.scenes@.len() == 0,
    {
        Episode { name: <String as vstd::string::StringExecFns>::from_str(name), scenes: Vec::new() }
    }
}

/// Snapshot of the director's evaluation at a specific time.
#[derive(Debug, Clone, Copy, PartialEq, Eq, Structural)]
pub struct DirectorState {
    pub time: i64,
    pub active_cut: Option<CutId>,
    pub camera_state: CameraState,
}

/// Director: owns the episode's scene list and all cuts, kept sorted by
/// start time for binary-search lookup.
#[derive(Debug, Clone)]
pub struct Director {
    pub episode: Episode,
    sorted_cuts: Vec<(CutId, Cut)>,
    next_id: u32,
}

/// Sorted (non-strictly) by start time.
pub open spec fn spec_sorted_by_start(s: Seq<(CutId, Cut)>) -> bool {
    forall|i: int, j: int|
        0 <= i < j < s.len() ==> (#[trigger] s[i]).1.start_time <= (#[trigger] s[j]).1.start_time
}

/// The first position whose start time is at or after `start`: where an
/// ordered insert of a cut starting at `start` goes.
pub open spec fn spec_lower_bound(s: Seq<(CutId, Cut)>, start: i64) -> int
    decreases s.len(),
{
    if s.len() == 0 {
        0
    } else if s[0].1.start_time >= start {
        0
    } else {
        1 + spec_lower_bound(s.subrange(1, s.len() as int), start)
    }
}

/// The first position whose start time is strictly after `t`: the binary
/// search insertion point that active-cut resolution uses.
pub open spec fn spec_upper_bound(s: Seq<(CutId, Cut)>, t: int) -> int
    decreases s.len(),
{
    if s.len() == 0 {
        0
    } else if s[0].1.start_time > t {
        0
    } else {
        1 + spec_upper_bound(s.subrange(1, s.len() as int), t)
    }
}

/// The index of the active cut at `t`: the candidate immediately before the
/// insertion point of `t`, with a fallback test of index zero; `None` when
/// neither candidate's window contains `t`.
pub open spec fn spec_find_active(s: Seq<(CutId, Cut)>, t: int) -> Option<int> {
    let u = spec_upper_bound(s, t);
    if u > 0 && spec_contains_time(s[u - 1].1, t) {
        Some(u - 1)
    } else if s.len() > 0 && spec_contains_time(s[0].1, t) {
        Some(0)
    } else {
        None
    }
}

/// The state the director reports at a time: the active cut's identity
/// with its camera evaluated at cut-local time, or no cut and the default
/// camera state.
pub open spec fn spec_director_state(d: Director, time: i64) -> DirectorState {
    match spec_find_active(d.spec_cuts(), time as int) {
        Some(i) => DirectorState {
            time,
            active_cut: Some(d.spec_cuts()[i].0),
            camera_state: d.spec_cuts()[i].1.camera.spec_evaluate(
                sat64(time - d.spec_cuts()[i].1.start_time),
            ),
        },
        None => DirectorState {
            time,
            active_cut: None,
            camera_state: spec_default_camera_state(),
        },
    }
}

/// The plain maximum end time over all cuts; zero only when there are no
/// cuts. With a single cut ending before time zero the maximum is that
/// (negative) end time, not zero.
pub open spec fn spec_max_end(s: Seq<(CutId, Cut)>) -> int
    decreases s.len(),
{
    if s.len() == 0 {
        0
    } else if s.len() == 1 {
        s[0].1.end_time as int
    } else {
        let rest = spec_max_end(s.drop_last());
        if s.last().1.end_time > rest {
            s.last().1.end_time as int
        } else {
            rest
        }
    }
}

/// The maximum end time is representable as a time value.
pub proof fn lemma_max_end_range(s: Seq<(CutId, Cut)>)
    ensures
        i64::MIN <= spec_max_end(s) <= i64::MAX,
    decreases s.len(),
{
    if s.len() > 1 {
        lemma_max_end_range(s.drop_last());
    }
}

/// A position that splits the starts at-or-after `start` from those before
/// is the lower bound.
proof fn lemma_lower_bound_char(s: Seq<(CutId, Cut)>, start: i64, i: int)
    requires
        0 <= i <= s.len(),
        forall|j: int| 0 <= j < i ==> (#[trigger] s[j]).1.start_time < start,
        i < s.len() ==> s[i].1.start_time >= start,
    ensures
        spec_lower_bound(s, start) == i,
    decreases s.len(),
{
    if s.len() == 0 {
    } else if s[0].1.start_time >= start {
        assert(i == 0);
    } else {
        let s1 = s.subrange(1, s.len() as int);
        assert(i >= 1);
        assert(forall|j: int| 0 <= j < i - 1 ==> (#[trigger] s1[j]).1.start_time < start);
        lemma_lower_bound_char(s1, start, i - 1);
    }
}

/// A position that splits the starts at-or-before `t` from those after is
/// the upper bound.
proof fn lemma_upper_bound_char(s: Seq<(CutId, Cut)>, t: int, i: int)
    requires
        0 <= i <= s.len(),
        forall|j: int| 0 <= j < i ==> (#[trigger] s[j]).1.start_time <= t,
        i < s.len() ==> s[i].1.start_time > t,
    ensures
        spec_upper_bound(s, t) == i,
    decreases s.len(),
{
    if s.len() == 0 {
    } else if s[0].1.start_time > t {
        assert(i == 0);
    } else {
        let s1 = s.subrange(1, s.len() as int);
        assert(i >= 1);
        assert(forall|j: int| 0 <= j < i - 1 ==> (#[trigger] s1[j]).1.start_time <= t);
        lemma_upper_bound_char(s1, t, i - 1);
    }
}

/// In a sorted sequence every start at or before the upper bound's
/// predecessor is at most `t`, and every start from the upper bound on is
/// after `t`.
proof fn lemma_upper_bound_sorted(s: Seq<(CutId, Cut)>, t: int)
    requires
        spec_sorted_by_start(s),
    ensures
        0 <= spec_upper_bound(s, t) <= s.len(),
        forall|j: int| 0 <= j < spec_upper_bound(s, t) ==> (#[trigger] s[j]).1.start_time <= t,
        forall|j: int|
            spec_upper_bound(s, t) <= j < s.len() ==> (#[trigger] s[j]).1.start_time > t,
    decreases s.len(),
{
    if s.len() == 0 {
    } else if s[0].1.start_time > t {
        assert(forall|j: int| 0 <= j < s.len() ==> s[0].1.start_time <= (#[trigger] s[j]).1.start_time);
    } else {
        let s1 = s.subrange(1, s.len() as int);
        assert(spec_sorted_by_start(s1)) by {
            assert(forall|p: int, q: int|
                0 <= p < q < s1.len() ==> s1[p] == s[p + 1] && s1[q] == s[q + 1]);
        }
        lemma_upper_bound_sorted(s1, t);
        let u = spec_upper_bound(s, t);
        assert(u == 1 + spec_upper_bound(s1, t));
        assert(forall|j: int| 1 <= j < u ==> s[j] == s1[j - 1]);
        assert(forall|j: int| u <= j < s.len() ==> s[j] == s1[j - 1]);
    }
}

/// Two windows do not overlap.
pub open spec fn spec_disjoint(a: Cut, b: Cut) -> bool {
    a.end_time <= b.start_time || b.end_time <= a.start_time
}

impl Director {
    /// The owned cut sequence, for contracts.
    pub closed spec fn spec_cuts(&self) -> Seq<(CutId, Cut)> {
        self.sorted_cuts@
    }

    /// The next identity to be assigned.
    pub closed spec fn spec_next_id(&self) -> int {
        self.next_id as int
    }

    /// The episode naming hierarchy, for contracts.
    pub closed spec fn spec_episode(&self) -> Episode {
        self.episode
    }

    /// The cut sequence is sorted by start time, identities are unique, and
    /// every camera track is well-formed.
    pub open spec fn wf(&self) -> bool {
        &&& spec_sorted_by_start(self.spec_cuts())
        &&& forall|i: int, j: int|
            0 <= i < j < self.spec_cuts().len() ==> (#[trigger] self.spec_cuts()[i]).0 != (
            #[trigger] self.spec_cuts()[j]).0
        &&& forall|i: int|
            0 <= i < self.spec_cuts().len() ==> (#[trigger] self.spec_cuts()[i]).1.wf()
        &&& forall|i: int|
            0 <= i < self.spec_cuts().len() ==> (#[trigger] self.spec_cuts()[i]).0.0
                < self.spec_next_id()
    }

    /// Internal view of the cut sequence, for the container codec.
    pub(crate) fn cuts_ref(&self) -> (r: &Vec<(CutId, Cut)>)
        ensures
            r@ == self.spec_cuts(),
    {
        &self.sorted_cuts
    }

    /// Internal view of the episode hierarchy, for the container codec.
    pub(crate) fn episode_ref(&self) -> (r: &Episode)
        ensures
            *r == self.spec_episode(),
    {
        &self.episode
    }

    /// Internal next-identity value, for the container codec.
    pub(crate) fn raw_next_id(&self) -> (r: u32)
        ensures
            r as int == self.spec_next_id(),
    {
        self.next_id
    }

    /// Rebuild a director from decoded, validated parts.
    pub(crate) fn from_parts(episode: Episode, sorted_cuts: Vec<(CutId, Cut)>, next_id: u32) -> (r:
        Director)
        requires
            spec_sorted_by_start(sorted_cuts@),
            forall|i: int, j: int|
                0 <= i < j < sorted_cuts@.len() ==> (#[trigger] sorted_cuts@[i]).0 != (
                #[trigger] sorted_cuts@[j]).0,
            forall|i: int| 0 <= i < sorted_cuts@.len() ==> (#[trigger] sorted_cuts@[i]).1.wf(),
            forall|i: int|
                0 <= i < sorted_cuts@.len() ==> (#[trigger] sorted_cuts@[i]).0.0 < next_id,
        ensures
            r.wf(),
            r.spec_cuts() == sorted_cuts@,
            r.spec_next_id() == next_id as int,
            r.spec_episode() == episode,
    {
        Director { episode, sorted_cuts, next_id }
    }

    /// An empty director for a named episode.
    pub fn new(episode_name: &str) -> (r: Director)
        ensures
            r.wf(),
            r.spec_cuts().len() == 0,
            r.spec_next_id() == 0,
            r.spec_episode().name@ == episode_name@,
            r.spec_episode().scenes@.len() == 0,
    {
        Director { episode: Episode::new(episode_name), sorted_cuts: Vec::new(), next_id: 0 }
    }

    /// Add a cut, assigning the next identity and inserting at the position
    /// that preserves ascending start-time order (an equal start time
    /// inserts at the first valid position).
    pub fn add_cut(&mut self, cut: Cut) -> (r: CutId)
        requires
            old(self).wf(),
            cut.wf(),
            old(self).spec_next_id() < u32::MAX,
        ensures
            final(self).wf(),
            r.0 == old(self).spec_next_id(),
            final(self).spec_next_id() == old(self).spec_next_id() + 1,
            final(self).spec_cuts() == old(self).spec_cuts().insert(
                spec_lower_bound(old(self).spec_cuts(), cut.start_time),
                (r, cut),
            ),
            final(self).spec_episode() == old(self).spec_episode(),
    {
        let id = CutId(self.next_id);
        self.next_id = self.next_id + 1;
        let start = cut.start_time;
        let ghost s0 = self.sorted_cuts@;
        let mut lo: usize = 0;
        let mut hi: usize = self.sorted_cuts.len();
        while lo < hi
            invariant
                lo <= hi <= s0.len(),
                self.sorted_cuts@ == s0,
                spec_sorted_by_start(s0),
                forall|j: int| 0 <= j < lo ==> (#[trigger] s0[j]).1.start_time < start,
                forall|j: int| hi <= j < s0.len() ==> (#[trigger] s0[j]).1.start_time >= start,
            decreases hi - lo,
        {
            let mid = lo + (hi - lo) / 2;
            if self.sorted_cuts[mid].1.start_time < start {
                lo = mid + 1;
            } else {
                hi = mid;
            }
        }
        proof {
            lemma_lower_bound_char(s0, start, lo as int);
        }
        self.sorted_cuts.insert(lo, (id, cut));
        proof {
            let snew = self.sorted_cuts@;
            let l = lo as int;
            assert(snew == s0.insert(l, (id, cut)));
            assert(spec_sorted_by_start(snew)) by {
                assert forall|i: int, j: int|
                    0 <= i < j < snew.len() implies (#[trigger] snew[i]).1.start_time <= (
                    #[trigger] snew[j]).1.start_time by {
                    if i < l && j < l {
                        assert(snew[i] == s0[i] && snew[j] == s0[j]);
                    } else if i < l && j == l {
                        assert(snew[i] == s0[i]);
                    } else if i < l && j > l {
                        assert(snew[i] == s0[i] && snew[j] == s0[j - 1]);
                    } else if i == l && j > l {
                        assert(snew[j] == s0[j - 1]);
                    } else if i > l && j > l {
                        assert(snew[i] == s0[i - 1] && snew[j] == s0[j - 1]);
                    }
                }
            }
            assert forall|i: int, j: int|
                0 <= i < j < snew.len() implies (#[trigger] snew[i]).0 != (#[trigger] snew[j]).0
            by {
                if i != l && j != l {
                    let ii = if i < l { i } else { i - 1 };
                    let jj = if j < l { j } else { j - 1 };
                    assert(snew[i] == s0[ii] && snew[j] == s0[jj]);
                } else if i == l {
                    assert(snew[j] == s0[j - 1]);
                    assert(s0[j - 1].0.0 < old(self).spec_next_id());
                } else {
                    assert(snew[i] == s0[i]);
                    assert(s0[i].0.0 < old(self).spec_next_id());
                }
            }
            assert forall|i: int| 0 <= i < snew.len() implies (#[trigger] snew[i]).1.wf() by {
                if i != l {
                    let ii = if i < l { i } else { i - 1 };
                    assert(snew[i] == s0[ii]);
                }
            }
            assert forall|i: int|
                0 <= i < snew.len() implies (#[trigger] snew[i]).0.0 < self.spec_next_id() by {
                if i != l {
                    let ii = if i < l { i } else { i - 1 };
                    assert(snew[i] == s0[ii]);
                }
            }
        }
        id
    }

    /// Look up a cut by identity (linear: storage is sorted by time, not by
    /// identity).
    pub fn get_cut(&self, id: CutId) -> (r: Option<&Cut>)
        ensures
            match r {
                Some(c) => exists|i: int|
                    0 <= i < self.spec_cuts().len() && (#[trigger] self.spec_cuts()[i]) == (
                    id,
                    *c,
                ),
                None => forall|i: int|
                    0 <= i < self.spec_cuts().len() ==> (#[trigger] self.spec_cuts()[i]).0 != id,
            },
    {
        let mut i: usize = 0;
        while i < self.sorted_cuts.len()
            invariant
                i <= self.spec_cuts().len(),
                forall|j: int| 0 <= j < i ==> (#[trigger] self.spec_cuts()[j]).0 != id,
            decreases self.spec_cuts().len() - i,
        {
            if self.sorted_cuts[i].0.0 == id.0 {
                proof {
                    assert(self.spec_cuts()[i as int].0 == id);
                }
                return Some(&self.sorted_cuts[i].1);
            }
            i = i + 1;
        }
        None
    }

    /// Replace the cut with the given identity; `false` when the identity
    /// is unknown. The replacement keeps the stored window times, so the
    /// sorted order is preserved.
    pub fn set_cut(&mut self, id: CutId, camera: CameraTrack, active_actors: Vec<ActorId>) -> (r:
        bool)
        requires
            old(self).wf(),
            camera.wf(),
        ensures
            final(self).wf(),
            r == (exists|i: int|
                0 <= i < old(self).spec_cuts().len() && (#[trigger] old(self).spec_cuts()[i]).0
                    == id),
            final(self).spec_cuts().len() == old(self).spec_cuts().len(),
            final(self).spec_episode() == old(self).spec_episode(),
            final(self).spec_next_id() == old(self).spec_next_id(),
            forall|i: int|
                0 <= i < old(self).spec_cuts().len() && (#[trigger] old(self).spec_cuts()[i]).0
                    != id ==> final(self).spec_cuts()[i] == old(self).spec_cuts()[i],
            forall|i: int|
                0 <= i < old(self).spec_cuts().len() && (#[trigger] old(self).spec_cuts()[i]).0
                    == id ==> final(self).spec_cuts()[i] == (
                id,
                Cut {
                    camera,
                    active_actors,
                    ..old(self).spec_cuts()[i].1
                },
            ),
    {
        let ghost s0 = self.sorted_cuts@;
        let mut i: usize = 0;
        while i < self.sorted_cuts.len()
            invariant
                old(self).wf(),
                camera.wf(),
                i <= s0.len(),
                self.sorted_cuts@ == s0,
                s0 == old(self).spec_cuts(),
                self.next_id == old(self).next_id,
                self.episode == old(self).spec_episode(),
                forall|j: int| 0 <= j < i ==> (#[trigger] s0[j]).0 != id,
            decreases s0.len() - i,
        {
            if self.sorted_cuts[i].0.0 == id.0 {
                proof {
                    assert(s0[i as int].0 == id);
                }
                let start = self.sorted_cuts[i].1.start_time;
                let end = self.sorted_cuts[i].1.end_time;
                let name = self.sorted_cuts[i].1.name.clone();
                let rcp = self.sorted_cuts[i].1.rcp_duration;
                let newcut = Cut {
                    name,
                    start_time: start,
                    end_time: end,
                    camera,
                    active_actors,
                    rcp_duration: rcp,
                };
                self.sorted_cuts[i] = (id, newcut);
                proof {
                    let snew = self.sorted_cuts@;
                    assert(snew == s0.update(i as int, (id, snew[i as int].1)));
                    assert forall|p: int, q: int|
                        0 <= p < q < snew.len() implies (#[trigger] snew[p]).1.start_time <= (
                        #[trigger] snew[q]).1.start_time by {
                        assert(s0[p].1.start_time <= s0[q].1.start_time);
                    }
                    assert forall|p: int, q: int|
                        0 <= p < q < snew.len() implies (#[trigger] snew[p]).0 != (
                        #[trigger] snew[q]).0 by {
                        assert(s0[p].0 != s0[q].0);
                    }
                }
                return true;
            }
            i = i + 1;
        }
        false
    }

    /// Append a scene to the episode.
    pub fn add_scene(&mut self, scene: Scene)
        requires
            old(self).wf(),
        ensures
            final(self).wf(),
            final(self).spec_episode().name == old(self).spec_episode().name,
            final(self).spec_episode().scenes@ == old(self).spec_episode().scenes@.push(scene),
            final(self).spec_cuts() == old(self).spec_cuts(),
            final(self).spec_next_id() == old(self).spec_next_id(),
    {
        self.episode.scenes.push(scene);
    }

    /// Find the active cut at a time by binary search over the sorted
    /// starts: the candidate immediately before the insertion point is
    /// tested against the half-open window rule, with index zero tested as
    /// a fallback. `None` when no candidate's window contains the time
    /// (including the empty sequence).
    pub fn find_active_cut(&self, time: i64) -> (r: Option<(CutId, &Cut)>)
        requires
            self.wf(),
        ensures
            match r {
                Some(p) => spec_find_active(self.spec_cuts(), time as int) matches Some(i)
                    && self.spec_cuts()[i].0 == p.0 && self.spec_cuts()[i].1 == *(p.1),
                None => spec_find_active(self.spec_cuts(), time as int) is None,
            },
    {
        let ghost s = self.sorted_cuts@;
        let mut lo: usize = 0;
        let mut hi: usize = self.sorted_cuts.len();
        while lo < hi
            invariant
                lo <= hi <= s.len(),
                self.sorted_cuts@ == s,
                spec_sorted_by_start(s),
                forall|j: int| 0 <= j < lo ==> (#[trigger] s[j]).1.start_time <= time,
                forall|j: int| hi <= j < s.len() ==> (#[trigger] s[j]).1.start_time > time,
            decreases hi - lo,
        {
            let mid = lo + (hi - lo) / 2;
            if self.sorted_cuts[mid].1.start_time <= time {
                lo = mid + 1;
            } else {
                hi = mid;
            }
        }
        proof {
            lemma_upper_bound_char(s, time as int, lo as int);
        }
        if lo > 0 {
            let entry = &self.sorted_cuts[lo - 1];
            if entry.1.contains_time(time) {
                return Some((entry.0, &entry.1));
            }
        }
        if self.sorted_cuts.len() > 0 {
            let entry = &self.sorted_cuts[0];
            if entry.1.contains_time(time) {
                proof {
                    if lo > 0 && spec_contains_time(s[lo - 1].1, time as int) {
                        assert(false);
                    }
                }
                return Some((entry.0, &entry.1));
            }
        }
        None
    }

    /// The authoritative episode length: the plain maximum end time across
    /// all cuts, zero only when there are none.
    pub fn duration(&self) -> (r: i64)
        ensures
            r == spec_max_end(self.spec_cuts()),
    {
        if self.sorted_cuts.len() == 0 {
            return 0;
        }
        let mut best: i64 = self.sorted_cuts[0].1.end_time;
        let mut i: usize = 1;
        proof {
            assert(self.sorted_cuts@.take(1).len() == 1);
            assert(self.sorted_cuts@.take(1)[0] == self.sorted_cuts@[0]);
        }
        while i < self.sorted_cuts.len()
            invariant
                1 <= i <= self.spec_cuts().len(),
                best == spec_max_end(self.spec_cuts().take(i as int)),
            decreases self.spec_cuts().len() - i,
        {
            proof {
                assert(self.sorted_cuts@.take(i + 1).drop_last() =~= self.sorted_cuts@.take(
                    i as int,
                ));
                assert(self.sorted_cuts@.take(i + 1).last() == self.sorted_cuts@[i as int]);
            }
            if self.sorted_cuts[i].1.end_time > best {
                best = self.sorted_cuts[i].1.end_time;
            }
            i = i + 1;
        }
        proof {
            assert(self.sorted_cuts@.take(self.sorted_cuts@.len() as int) =~= self.sorted_cuts@);
        }
        best
    }

    /// Evaluate the director at a time: resolve the active cut, evaluate
    /// its camera at cut-local time, and report the cut identity; with no
    /// active cut, report the default camera state. Pure: no mutation, and
    /// equal times yield equal states.
    #[verifier::rlimit(30)]
    pub fn evaluate(&self, _scene_graph: &SceneGraph, time: i64) -> (r: DirectorState)
        requires
            self.wf(),
        ensures
            r == spec_director_state(*self, time),
    {
        match self.find_active_cut(time) {
            Some((cut_id, cut)) => {
                proof {
                    lemma_upper_bound_sorted(self.spec_cuts(), time as int);
                    let i = spec_find_active(self.spec_cuts(), time as int).unwrap();
                    assert(0 <= i < self.spec_cuts().len());
                    assert(self.spec_cuts()[i].1.wf());
                }
                let local_time = sat_sub(time, cut.start_time);
                let camera_state = cut.camera.evaluate(local_time);
                DirectorState { time, active_cut: Some(cut_id), camera_state }
            },
            None => DirectorState {
                time,
                active_cut: None,
                camera_state: CameraState::default(),
            },
        }
    }

    /// Number of cuts.
    pub fn cut_count(&self) -> (r: usize)
        ensures
            r == self.spec_cuts().len(),
    {
        self.sorted_cuts.len()
    }
}

/// The half-open interval law for two disjoint cuts: wherever the director
/// holds exactly two cuts with disjoint windows — in either insertion order
/// — active-cut resolution returns the cut whose window contains the query
/// time, and `None` for times in neither window.
pub proof fn lemma_two_disjoint_cuts_resolution(s: Seq<(CutId, Cut)>, t: int)
    requires
        spec_sorted_by_start(s),
        s.len() == 2,
        spec_disjoint(s[0].1, s[1].1),
    ensures
        spec_contains_time(s[0].1, t) ==> spec_find_active(s, t) == Some(0int),
        spec_contains_time(s[1].1, t) ==> spec_find_active(s, t) == Some(1int),
        !spec_contains_time(s[0].1, t) && !spec_contains_time(s[1].1, t) ==> spec_find_active(
            s,
            t,
        ) is None,
{
    lemma_upper_bound_sorted(s, t);
    let u = spec_upper_bound(s, t);
    if spec_contains_time(s[1].1, t) {
        assert(s[1].1.start_time <= t);
        assert(u == 2);
        assert(!spec_contains_time(s[0].1, t));
    } else if spec_contains_time(s[0].1, t) {
        assert(s[0].1.start_time <= t);
        assert(u >= 1);
        if u == 1 {
            assert(spec_find_active(s, t) == Some(0int));
        } else {
            assert(!spec_contains_time(s[1].1, t));
            assert(spec_find_active(s, t) == Some(0int));
        }
    } else {
        if u > 0 {
            assert(!spec_contains_time(s[u - 1].1, t));
        }
    }
}

/// Contiguity: each window ends exactly where the next begins.
pub open spec fn spec_contiguous(s: Seq<(CutId, Cut)>) -> bool {
    forall|i: int|
        0 <= i < s.len() - 1 ==> (#[trigger] s[i]).1.end_time == s[i + 1].1.start_time
}

/// The boundary law for contiguous cuts: at every time within the covered
/// range — boundary times included — exactly one cut is active: the one
/// whose half-open window contains the time. At a shared boundary that is
/// the later cut, never the earlier one, and never both or neither.
pub proof fn lemma_contiguous_boundary(s: Seq<(CutId, Cut)>, t: int, i: int)
    requires
        spec_sorted_by_start(s),
        spec_contiguous(s),
        0 <= i < s.len(),
        spec_contains_time(s[i].1, t),
    ensures
        spec_find_active(s, t) == Some(i),
        forall|j: int| 0 <= j < s.len() && j != i ==> !spec_contains_time((#[trigger] s[j]).1, t),
{
    lemma_upper_bound_sorted(s, t);
    let u = spec_upper_bound(s, t);
    assert(s[i].1.start_time <= t);
    assert(i < u);
    assert forall|j: int| 0 <= j < s.len() && j != i implies !spec_contains_time(
        (#[trigger] s[j]).1,
        t,
    ) by {
        if j < i {
            lemma_contiguous_end_le(s, j, i);
            assert(s[j].1.end_time <= s[i].1.start_time);
        } else {
            lemma_contiguous_end_le(s, i, j);
            assert(s[i].1.end_time <= s[j].1.start_time);
        }
    }
    if u - 1 > i {
        assert(s[u - 1].1.start_time <= t);
        lemma_contiguous_end_le(s, i, u - 1);
        assert(s[i].1.end_time <= s[u - 1].1.start_time);
        assert(false);
    }
    assert(u - 1 == i);
}

/// The shared-boundary rule: where one window ends exactly as the next
/// (non-degenerate) one starts, the time at the boundary activates the
/// later cut — never the earlier one, never both, never neither.
pub proof fn lemma_contiguous_shared_boundary(s: Seq<(CutId, Cut)>, i: int)
    requires
        spec_sorted_by_start(s),
        spec_contiguous(s),
        0 <= i < s.len() - 1,
        s[i + 1].1.start_time < s[i + 1].1.end_time,
    ensures
        spec_find_active(s, s[i].1.end_time as int) == Some(i + 1),
        !spec_contains_time(s[i].1, s[i].1.end_time as int),
        forall|j: int|
            0 <= j < s.len() && j != i + 1 ==> !spec_contains_time(
                (#[trigger] s[j]).1,
                s[i].1.end_time as int,
            ),
{
    let t = s[i].1.end_time as int;
    assert(s[i + 1].1.start_time == s[i].1.end_time);
    assert(spec_contains_time(s[i + 1].1, t));
    lemma_contiguous_boundary(s, t, i + 1);
}

/// In a sorted contiguous sequence, an earlier window ends at or before a
/// later window starts.
proof fn lemma_contiguous_end_le(s: Seq<(CutId, Cut)>, i: int, j: int)
    requires
        spec_sorted_by_start(s),
        spec_contiguous(s),
        0 <= i < j < s.len(),
    ensures
        s[i].1.end_time <= s[j].1.start_time,
    decreases j - i,
{
    if j == i + 1 {
        assert(s[i].1.end_time == s[j].1.start_time);
    } else {
        lemma_contiguous_end_le(s, i, j - 1);
        assert(s[i].1.end_time <= s[j - 1].1.start_time);
        assert(s[j - 1].1.start_time <= s[j].1.start_time);
    }
}

} // verus!
