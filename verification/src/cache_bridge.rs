//! Frame-level evaluation cache: director states keyed by frame index,
//! with bounded capacity and oldest-first eviction.

use vstd::prelude::*;

use crate::director::{Director, DirectorState};
use crate::scene::SceneGraph;

verus! {

/// A cached frame: the query time and the evaluated state.
#[derive(Debug, Clone, Copy, PartialEq, Eq, Structural)]
pub struct CachedFrame {
    pub time: i64,
    pub state: DirectorState,
    pub sdf_hash: u64,
}

/// A bounded cache of evaluated frames. Entries are kept in insertion
/// order; when full, the oldest entry is evicted.
#[derive(Debug, Clone)]
pub struct AnimationCache {
    frames: Vec<(u32, CachedFrame)>,
    max_frames: usize,
    hit_count: u64,
    miss_count: u64,
}

impl AnimationCache {
    /// The cached entries, for contracts.
    pub closed spec fn spec_frames(&self) -> Seq<(u32, CachedFrame)> {
        self.frames@
    }

    /// The capacity, for contracts.
    pub closed spec fn spec_max(&self) -> int {
        self.max_frames as int
    }

    /// The hit and miss counters, for contracts.
    pub closed spec fn spec_counts(&self) -> (int, int) {
        (self.hit_count as int, self.miss_count as int)
    }

    /// Keys are unique.
    pub open spec fn wf(&self) -> bool {
        forall|i: int, j: int|
            0 <= i < j < self.spec_frames().len() ==> (#[trigger] self.spec_frames()[i]).0 != (
            #[trigger] self.spec_frames()[j]).0
    }

    /// A frame index is cached.
    pub open spec fn spec_has(&self, frame_index: u32) -> bool {
        exists|i: int|
            0 <= i < self.spec_frames().len() && (#[trigger] self.spec_frames()[i]).0
                == frame_index
    }

    /// An empty cache with the given capacity.
    pub fn new(max_frames: usize) -> (r: AnimationCache)
        ensures
            r.wf(),
            r.spec_frames().len() == 0,
            r.spec_max() == max_frames,
            r.spec_counts() == (0int, 0int),
    {
        AnimationCache { frames: Vec::new(), max_frames, hit_count: 0, miss_count: 0 }
    }

    /// Number of cached frames.
    pub fn len(&self) -> (r: usize)
        ensures
            r == self.spec_frames().len(),
    {
        self.frames.len()
    }

    /// Return the cached state for a frame, or evaluate and cache it.
    /// A hit returns the stored state unchanged; a miss evaluates the
    /// director at the given time, stores the result (evicting the oldest
    /// entry when the cache is full), and returns it.
    pub fn get_or_evaluate(
        &mut self,
        frame_index: u32,
        time: i64,
        director: &Director,
        scene: &SceneGraph,
    ) -> (r: DirectorState)
        requires
            old(self).wf(),
            director.wf(),
        ensures
            final(self).wf(),
            final(self).spec_max() == old(self).spec_max(),
            old(self).spec_has(frame_index) ==> final(self).spec_frames() == old(
                self,
            ).spec_frames(),
            old(self).spec_has(frame_index) ==> exists|i: int|
                0 <= i < old(self).spec_frames().len() && (#[trigger] old(self).spec_frames()[i]).0
                    == frame_index && r == old(self).spec_frames()[i].1.state,
            !old(self).spec_has(frame_index) ==> r == crate::director::spec_director_state(
                *director,
                time,
            ) && final(self).spec_has(frame_index),
    {
        let ghost f0 = self.frames@;
        let mut i: usize = 0;
        while i < self.frames.len()
            invariant
                self.frames@ == f0,
                f0 == old(self).spec_frames(),
                self.max_frames == old(self).max_frames,
                old(self).wf(),
                i <= f0.len(),
                forall|j: int| 0 <= j < i ==> (#[trigger] f0[j]).0 != frame_index,
            decreases f0.len() - i,
        {
            if self.frames[i].0 == frame_index {
                if self.hit_count < u64::MAX {
                    self.hit_count = self.hit_count + 1;
                }
                proof {
                    assert(old(self).spec_frames()[i as int].0 == frame_index);
                }
                return self.frames[i].1.state;
            }
            i = i + 1;
        }
        proof {
            assert(!old(self).spec_has(frame_index));
        }
        if self.miss_count < u64::MAX {
            self.miss_count = self.miss_count + 1;
        }
        let state = director.evaluate(scene, time);
        if self.frames.len() >= self.max_frames && self.frames.len() > 0 {
            self.frames.remove(0);
        }
        let ghost f1 = self.frames@;
        proof {
            assert(forall|j: int| 0 <= j < f1.len() ==> (#[trigger] f1[j]).0 != frame_index)
                by {
                if f1.len() < f0.len() {
                    assert(forall|j: int| 0 <= j < f1.len() ==> f1[j] == f0[j + 1]);
                }
            }
        }
        self.frames.push((frame_index, CachedFrame { time, state, sdf_hash: 0 }));
        proof {
            assert(self.frames@[self.frames@.len() - 1].0 == frame_index);
            assert(self.spec_frames()[self.spec_frames().len() - 1].0 == frame_index);
            assert(self.spec_has(frame_index));
            assert forall|p: int, q: int|
                0 <= p < q < self.frames@.len() implies (#[trigger] self.frames@[p]).0 != (
                #[trigger] self.frames@[q]).0 by {
                if q < self.frames@.len() - 1 {
                    assert(self.frames@[p] == f1[p] && self.frames@[q] == f1[q]);
                    if f1.len() < f0.len() {
                        assert(f1[p] == f0[p + 1] && f1[q] == f0[q + 1]);
                    } else {
                        assert(f1[p] == f0[p] && f1[q] == f0[q]);
                    }
                } else {
                    assert(self.frames@[p] == f1[p]);
                    assert(f1[p].0 != frame_index);
                }
            }
        }
        state
    }

    /// The hit rate in milli-units; zero before any access.
    pub fn hit_rate(&self) -> (r: i64)
        ensures
            self.spec_counts().0 + self.spec_counts().1 == 0 ==> r == 0,
            self.spec_counts().0 + self.spec_counts().1 > 0 ==> r == crate::fixed::tdiv(
                self.spec_counts().0 * 1000,
                self.spec_counts().0 + self.spec_counts().1,
            ),
    {
        let total: u128 = self.hit_count as u128 + self.miss_count as u128;
        if total == 0 {
            return 0;
        }
        let q: u128 = (self.hit_count as u128 * 1000) / total;
        proof {
            assert(q == crate::fixed::tdiv(
                self.hit_count as int * 1000,
                self.hit_count as int + self.miss_count as int,
            ));
            assert(q <= 1000) by (nonlinear_arith)
                requires
                    q == (self.hit_count as u128 * 1000) as int / (self.hit_count as u128
                        + self.miss_count as u128) as int,
                    self.hit_count as u128 <= self.hit_count as u128 + self.miss_count as u128,
                    self.hit_count as u128 + self.miss_count as u128 > 0,
            ;
        }
        q as i64
    }

    /// Drop all cached frames and reset the counters.
    pub fn clear(&mut self)
        ensures
            final(self).wf(),
            final(self).spec_frames().len() == 0,
            final(self).spec_counts() == (0int, 0int),
            final(self).spec_max() == old(self).spec_max(),
    {
        self.frames.clear();
        self.hit_count = 0;
        self.miss_count = 0;
    }
}

} // verus!
