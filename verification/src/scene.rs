//! Scene graph: slot-addressed actor storage with a parent-child hierarchy,
//! world-transform resolution, and per-frame shape composition.
//!
//! Handles are monotonically assigned and never reused; slots are addressed
//! directly by handle value. Parent links are plain handles, so
//! world-transform resolution walks the chain with a fuel bound of the slot
//! count: an (invalid) cyclic chain exhausts the fuel and is reported as a
//! structural error instead of recursing forever.

use vstd::prelude::*;

use alice_sdf::types::SdfNode;

use crate::shape::{sdf_union, sdf_unit_sphere};
use crate::strings::str_eq;
use crate::transform::{
    spec_combine, spec_identity_transform, spec_v3_add, v3_add, ActorTransform, Vec3Milli,
};

verus! {

/// Unique actor identifier.
#[derive(Debug, Clone, Copy, PartialEq, Eq, Hash, Structural)]
pub struct ActorId(pub u32);

/// A single actor in the scene: a named, positioned entity contributing an
/// opaque base shape, with an optional keyframe timeline of the library's
/// own integer channels. Binding the sampled channels to the shape value is
/// the renderer adapter's concern; within the graph the base shape stands
/// for the actor.
#[derive(Debug, Clone)]
pub struct Actor {
    pub name: String,
    pub base_sdf: SdfNode,
    pub timeline: Option<crate::track::Timeline>,
    pub local_transform: ActorTransform,
    pub parent: Option<ActorId>,
    pub visible: bool,
}

impl Actor {
    /// A visible, parentless actor with the identity transform.
    pub fn new(name: &str, sdf: SdfNode) -> (r: Actor)
        ensures
            r.name@ == name@,
            r.base_sdf == sdf,
            r.timeline is None,
            r.local_transform == spec_identity_transform(),
            r.parent is None,
            r.visible,
    {
        Actor {
            name: <String as vstd::string::StringExecFns>::from_str(name),
            base_sdf: sdf,
            timeline: None,
            local_transform: ActorTransform::default(),
            parent: None,
            visible: true,
        }
    }

    /// Attach a keyframe timeline.
    pub fn with_timeline(self, timeline: crate::track::Timeline) -> (r: Actor)
        requires
            timeline.wf(),
        ensures
            r == (Actor { timeline: Some(timeline), ..self }),
    {
        Actor { timeline: Some(timeline), ..self }
    }

    /// Set the local transform.
    pub fn with_transform(self, transform: ActorTransform) -> (r: Actor)
        ensures
            r == (Actor { local_transform: transform, ..self }),
    {
        Actor { local_transform: transform, ..self }
    }

    /// Set the parent actor.
    pub fn with_parent(self, parent: ActorId) -> (r: Actor)
        ensures
            r == (Actor { parent: Some(parent), ..self }),
    {
        Actor { parent: Some(parent), ..self }
    }

    /// Set visibility.
    pub fn with_visible(self, visible: bool) -> (r: Actor)
        ensures
            r == (Actor { visible, ..self }),
    {
        Actor { visible, ..self }
    }

    /// The actor's shape at a time: within this library that is the base
    /// shape. Applying the sampled values of the actor's timeline to the
    /// shape value is the renderer adapter's concern, since the shape
    /// algebra is consumed opaquely here.
    pub fn evaluate_sdf(&self, _time: i64) -> (r: SdfNode)
        ensures
            r == self.base_sdf,
    {
        self.base_sdf.clone()
    }
}

/// Scene graph: an indexable collection of optional actor slots (index =
/// handle value) plus the list of root actor handles.
#[derive(Debug, Clone)]
pub struct SceneGraph {
    actors: Vec<Option<Actor>>,
    next_id: u32,
    pub root_actors: Vec<ActorId>,
}

/// Number of occupied slots in a slot sequence.
pub open spec fn spec_count_present(s: Seq<Option<Actor>>) -> int
    decreases s.len(),
{
    if s.len() == 0 {
        0
    } else {
        spec_count_present(s.drop_last()) + if s.last() is Some {
            1int
        } else {
            0int
        }
    }
}

/// The shapes contributed by visible occupied slots, in slot order.
pub open spec fn spec_visible_shapes(s: Seq<Option<Actor>>) -> Seq<SdfNode>
    decreases s.len(),
{
    if s.len() == 0 {
        Seq::empty()
    } else {
        let rest = spec_visible_shapes(s.drop_last());
        match s.last() {
            Some(a) => if a.visible {
                rest.push(a.base_sdf)
            } else {
                rest
            },
            None => rest,
        }
    }
}

/// Sum (and count) of local positions of visible occupied slots.
pub open spec fn spec_positions_sum(s: Seq<Option<Actor>>) -> (Vec3Milli, int)
    decreases s.len(),
{
    if s.len() == 0 {
        (Vec3Milli { x: 0, y: 0, z: 0 }, 0)
    } else {
        let (acc, cnt) = spec_positions_sum(s.drop_last());
        match s.last() {
            Some(a) => if a.visible {
                (spec_v3_add(acc, a.local_transform.position), cnt + 1)
            } else {
                (acc, cnt)
            },
            None => (acc, cnt),
        }
    }
}

impl SceneGraph {
    /// The slot sequence, for contracts.
    pub closed spec fn spec_slots(&self) -> Seq<Option<Actor>> {
        self.actors@
    }

    /// The next handle value to be assigned.
    pub closed spec fn spec_next_id(&self) -> int {
        self.next_id as int
    }

    /// The root handle list, for contracts.
    pub closed spec fn spec_roots(&self) -> Seq<ActorId> {
        self.root_actors@
    }

    /// Slots never outgrow the assigned handles.
    pub open spec fn wf(&self) -> bool {
        self.spec_slots().len() <= self.spec_next_id()
    }

    /// The slot of a handle, `None` for unknown or vacated handles.
    pub open spec fn spec_actor(&self, id: ActorId) -> Option<Actor> {
        if id.0 < self.spec_slots().len() {
            self.spec_slots()[id.0 as int]
        } else {
            None
        }
    }

    /// World transform resolution with a fuel bound: `None` when the fuel
    /// runs out, which — with fuel one more than the slot count — happens
    /// exactly on a cyclic parent chain. An unknown handle resolves to the
    /// identity, a root to its local transform, and any other actor to its
    /// parent's world transform combined with the local transform.
    pub open spec fn spec_world_transform(&self, id: ActorId, fuel: nat) -> Option<ActorTransform>
        decreases fuel,
    {
        if fuel == 0 {
            None
        } else {
            match self.spec_actor(id) {
                None => Some(spec_identity_transform()),
                Some(a) => match a.parent {
                    None => Some(a.local_transform),
                    Some(p) => match self.spec_world_transform(p, (fuel - 1) as nat) {
                        None => None,
                        Some(w) => Some(spec_combine(w, a.local_transform)),
                    },
                },
            }
        }
    }

    /// Internal view of the slots, for the container codec.
    pub(crate) fn slots_ref(&self) -> (r: &Vec<Option<Actor>>)
        ensures
            r@ == self.spec_slots(),
    {
        &self.actors
    }

    /// Internal view of the root list, for the container codec.
    pub(crate) fn roots_ref(&self) -> (r: &Vec<ActorId>)
        ensures
            r@ == self.spec_roots(),
    {
        &self.root_actors
    }

    /// Internal next-handle value, for the container codec.
    pub(crate) fn raw_next_id(&self) -> (r: u32)
        ensures
            r as int == self.spec_next_id(),
    {
        self.next_id
    }

    /// Rebuild a graph from decoded parts.
    pub(crate) fn from_parts(
        actors: Vec<Option<Actor>>,
        next_id: u32,
        root_actors: Vec<ActorId>,
    ) -> (r: SceneGraph)
        requires
            actors@.len() <= next_id,
        ensures
            r.wf(),
            r.spec_slots() == actors@,
            r.spec_next_id() == next_id as int,
            r.spec_roots() == root_actors@,
    {
        SceneGraph { actors, next_id, root_actors }
    }

    /// An empty scene graph.
    pub fn new() -> (r: SceneGraph)
        ensures
            r.wf(),
            r.spec_slots().len() == 0,
            r.spec_next_id() == 0,
            r.spec_roots().len() == 0,
    {
        SceneGraph { actors: Vec::new(), next_id: 0, root_actors: Vec::new() }
    }

    /// Add an actor, assigning the next handle; the actor is registered as
    /// a root when it has no parent. The slot collection grows as needed.
    pub fn add_actor(&mut self, actor: Actor) -> (r: ActorId)
        requires
            old(self).wf(),
            old(self).spec_next_id() < u32::MAX,
        ensures
            final(self).wf(),
            r.0 == old(self).spec_next_id(),
            final(self).spec_next_id() == old(self).spec_next_id() + 1,
            final(self).spec_slots().len() == old(self).spec_next_id() + 1,
            final(self).spec_actor(r) == Some(actor),
            forall|j: int|
                0 <= j < old(self).spec_slots().len() && j != r.0 ==> final(self).spec_slots()[j]
                    == old(self).spec_slots()[j],
            forall|j: int|
                old(self).spec_slots().len() <= j < final(self).spec_slots().len() - 1
                    ==> final(self).spec_slots()[j] is None,
            actor.parent is None ==> final(self).spec_roots() == old(self).spec_roots().push(r),
            actor.parent is Some ==> final(self).spec_roots() == old(self).spec_roots(),
    {
        let id = ActorId(self.next_id);
        self.next_id = self.next_id + 1;
        let ghost roots_after = self.root_actors@;
        if actor.parent.is_none() {
            self.root_actors.push(id);
        }
        let idx = id.0 as usize;
        let target = idx + 1;
        while self.actors.len() < target
            invariant
                target == idx + 1,
                idx == old(self).spec_next_id(),
                self.next_id == old(self).next_id + 1,
                actor.parent is None ==> self.root_actors@ == old(self).root_actors@.push(id),
                actor.parent is Some ==> self.root_actors@ == old(self).root_actors@,
                self.actors@.len() <= target,
                self.actors@.len() >= old(self).actors@.len(),
                forall|j: int|
                    0 <= j < old(self).actors@.len() ==> self.actors@[j] == old(self).actors@[j],
                forall|j: int|
                    old(self).actors@.len() <= j < self.actors@.len() ==> self.actors@[j] is None,
            decreases target - self.actors@.len(),
        {
            self.actors.push(None);
        }
        self.actors[idx] = Some(actor);
        id
    }

    /// Look up an actor by handle.
    pub fn get_actor(&self, id: ActorId) -> (r: Option<&Actor>)
        ensures
            match r {
                Some(a) => self.spec_actor(id) == Some(*a),
                None => self.spec_actor(id) is None,
            },
    {
        if (id.0 as usize) < self.actors.len() {
            match &self.actors[id.0 as usize] {
                Some(a) => Some(a),
                None => None,
            }
        } else {
            None
        }
    }

    /// Replace the actor in an occupied slot; `false` when the handle does
    /// not resolve. This is the mutation path for actors owned by the graph.
    pub fn set_actor(&mut self, id: ActorId, actor: Actor) -> (r: bool)
        requires
            old(self).wf(),
        ensures
            final(self).wf(),
            r == (old(self).spec_actor(id) is Some),
            r ==> final(self).spec_slots() == old(self).spec_slots().update(
                id.0 as int,
                Some(actor),
            ),
            !r ==> final(self).spec_slots() == old(self).spec_slots(),
            final(self).spec_next_id() == old(self).spec_next_id(),
            final(self).spec_roots() == old(self).spec_roots(),
    {
        if (id.0 as usize) < self.actors.len() {
            let occupied = self.actors[id.0 as usize].is_some();
            if occupied {
                self.actors[id.0 as usize] = Some(actor);
                return true;
            }
            proof {
                assert(final(self).spec_slots() =~= old(self).spec_slots());
            }
            false
        } else {
            proof {
                assert(final(self).spec_slots() =~= old(self).spec_slots());
            }
            false
        }
    }

    /// Find the first actor with the given name.
    pub fn find_by_name(&self, name: &str) -> (r: Option<ActorId>)
        requires
            self.wf(),
        ensures
            match r {
                Some(id) => id.0 < self.spec_slots().len() && (self.spec_slots()[id.0 as int]
                    matches Some(a) && a.name@ == name@) && (forall|j: int|
                    0 <= j < id.0 ==> !((#[trigger] self.spec_slots()[j]) matches Some(a)
                        && a.name@ == name@)),
                None => forall|j: int|
                    0 <= j < self.spec_slots().len() ==> !((#[trigger] self.spec_slots()[j])
                        matches Some(a) && a.name@ == name@),
            },
    {
        let mut i: usize = 0;
        while i < self.actors.len()
            invariant
                self.wf(),
                i <= self.actors@.len(),
                forall|j: int|
                    0 <= j < i ==> !((#[trigger] self.actors@[j]) matches Some(a) && a.name@
                        == name@),
            decreases self.actors@.len() - i,
        {
            match &self.actors[i] {
                Some(a) => {
                    if str_eq(a.name.as_str(), name) {
                        return Some(ActorId(i as u32));
                    }
                },
                None => {},
            }
            i = i + 1;
        }
        None
    }

    /// Resolve the world transform of an actor by walking the parent
    /// chain, combining local transforms by the composition law; an
    /// unknown handle resolves to the identity. `None` reports the
    /// structural error of a cyclic parent chain, on which no transform is
    /// defined.
    pub fn resolve_world_transform(&self, id: ActorId) -> (r: Option<ActorTransform>)
        requires
            self.wf(),
        ensures
            r == self.spec_world_transform(id, (self.spec_slots().len() + 1) as nat),
    {
        let fuel: u64 = self.actors.len() as u64 + 1;
        self.world_transform_fuel(id, fuel)
    }

    /// Same resolution with the identity transform standing in for the
    /// cyclic-chain error, for callers that cannot fail; the acyclic cases
    /// are pinned exactly.
    pub fn get_world_transform(&self, id: ActorId) -> (r: ActorTransform)
        requires
            self.wf(),
        ensures
            match self.spec_world_transform(id, (self.spec_slots().len() + 1) as nat) {
                Some(w) => r == w,
                None => r == spec_identity_transform(),
            },
    {
        match self.resolve_world_transform(id) {
            Some(t) => t,
            None => ActorTransform::default(),
        }
    }

    /// Bounded parent-chain walk.
    fn world_transform_fuel(&self, id: ActorId, fuel: u64) -> (r: Option<ActorTransform>)
        ensures
            r == self.spec_world_transform(id, fuel as nat),
        decreases fuel,
    {
        if fuel == 0 {
            return None;
        }
        match self.get_actor(id) {
            None => Some(ActorTransform::default()),
            Some(a) => {
                match a.parent {
                    None => Some(a.local_transform),
                    Some(p) => {
                        match self.world_transform_fuel(p, fuel - 1) {
                            None => None,
                            Some(parent_world) => Some(parent_world.combine(&a.local_transform)),
                        }
                    },
                }
            },
        }
    }

    /// All occupied handles, in slot order.
    pub fn actor_ids(&self) -> (r: Vec<ActorId>)
        requires
            self.wf(),
        ensures
            forall|k: int|
                0 <= k < r@.len() ==> (#[trigger] r@[k]).0 < self.spec_slots().len()
                    && self.spec_slots()[r@[k].0 as int] is Some,
            forall|j: int|
                0 <= j < self.spec_slots().len() && self.spec_slots()[j] is Some ==> exists|k: int|
                    0 <= k < r@.len() && (#[trigger] r@[k]).0 == j,
    {
        let mut out: Vec<ActorId> = Vec::new();
        let mut i: usize = 0;
        while i < self.actors.len()
            invariant
                self.wf(),
                i <= self.actors@.len(),
                forall|k: int|
                    0 <= k < out@.len() ==> (#[trigger] out@[k]).0 < i
                        && self.actors@[out@[k].0 as int] is Some,
                forall|j: int|
                    0 <= j < i && self.actors@[j] is Some ==> exists|k: int|
                        0 <= k < out@.len() && (#[trigger] out@[k]).0 == j,
            decreases self.actors@.len() - i,
        {
            let ghost out0 = out@;
            if self.actors[i].is_some() {
                out.push(ActorId(i as u32));
                proof {
                    assert(out@ == out0.push(ActorId(i as u32)));
                    assert(out@[out@.len() - 1].0 == i);
                }
            }
            proof {
                assert forall|j: int|
                    0 <= j < i + 1 && self.actors@[j] is Some implies exists|k: int|
                    0 <= k < out@.len() && (#[trigger] out@[k]).0 == j by {
                    if j == i {
                        assert(out@[out@.len() - 1].0 == j);
                    } else {
                        let k = choose|k: int| 0 <= k < out0.len() && (#[trigger] out0[k]).0 == j;
                        assert(out@[k].0 == j);
                    }
                }
            }
            i = i + 1;
        }
        out
    }

    /// Number of actors present.
    pub fn actor_count(&self) -> (r: usize)
        ensures
            r == spec_count_present(self.spec_slots()),
    {
        let mut count: usize = 0;
        let mut i: usize = 0;
        proof {
            assert(self.actors@.take(0) =~= Seq::<Option<Actor>>::empty());
        }
        while i < self.actors.len()
            invariant
                i <= self.actors@.len(),
                count <= i,
                count == spec_count_present(self.actors@.take(i as int)),
            decreases self.actors@.len() - i,
        {
            proof {
                assert(self.actors@.take(i + 1).drop_last() =~= self.actors@.take(i as int));
                assert(self.actors@.take(i + 1).last() == self.actors@[i as int]);
            }
            if self.actors[i].is_some() {
                count = count + 1;
            }
            i = i + 1;
        }
        proof {
            assert(self.actors@.take(self.actors@.len() as int) =~= self.actors@);
        }
        count
    }

    /// Sum of local-space positions of visible actors, with their count;
    /// used by camera-framing heuristics.
    pub fn actor_positions_sum(&self) -> (r: (Vec3Milli, usize))
        ensures
            r.0 == spec_positions_sum(self.spec_slots()).0,
            r.1 == spec_positions_sum(self.spec_slots()).1,
    {
        let mut sum = Vec3Milli::zero();
        let mut count: usize = 0;
        let mut i: usize = 0;
        proof {
            assert(self.actors@.take(0) =~= Seq::<Option<Actor>>::empty());
        }
        while i < self.actors.len()
            invariant
                i <= self.actors@.len(),
                count <= i,
                sum == spec_positions_sum(self.actors@.take(i as int)).0,
                count == spec_positions_sum(self.actors@.take(i as int)).1,
            decreases self.actors@.len() - i,
        {
            proof {
                assert(self.actors@.take(i + 1).drop_last() =~= self.actors@.take(i as int));
                assert(self.actors@.take(i + 1).last() == self.actors@[i as int]);
            }
            match &self.actors[i] {
                Some(a) => {
                    if a.visible {
                        sum = v3_add(sum, a.local_transform.position);
                        count = count + 1;
                    }
                },
                None => {},
            }
            i = i + 1;
        }
        proof {
            assert(self.actors@.take(self.actors@.len() as int) =~= self.actors@);
        }
        (sum, count)
    }

    /// Evaluate the whole scene at a time: every present, visible actor
    /// contributes its shape, and the shapes are folded left-to-right in
    /// slot order with the union operator. Zero visible actors yield the
    /// fallback unit sphere; one yields that actor's shape with no union
    /// wrapper, which the contract states as plain equality. The fallback
    /// and the union tree are values of the opaque shape algebra, on which
    /// nothing further can be stated, so those two arms are shown by the
    /// composition tests.
    pub fn evaluate_scene(&self, time: i64) -> (r: SdfNode)
        ensures
            spec_visible_shapes(self.spec_slots()).len() == 1 ==> r == spec_visible_shapes(
                self.spec_slots(),
            )[0],
    {
        let mut acc: Option<SdfNode> = None;
        let mut i: usize = 0;
        proof {
            assert(self.actors@.take(0) =~= Seq::<Option<Actor>>::empty());
        }
        while i < self.actors.len()
            invariant
                i <= self.actors@.len(),
                acc is None <==> spec_visible_shapes(self.actors@.take(i as int)).len() == 0,
                spec_visible_shapes(self.actors@.take(i as int)).len() == 1 ==> acc == Some(
                    spec_visible_shapes(self.actors@.take(i as int))[0],
                ),
            decreases self.actors@.len() - i,
        {
            proof {
                assert(self.actors@.take(i + 1).drop_last() =~= self.actors@.take(i as int));
                assert(self.actors@.take(i + 1).last() == self.actors@[i as int]);
            }
            match &self.actors[i] {
                Some(a) => {
                    if a.visible {
                        let shape = a.evaluate_sdf(time);
                        acc = match acc {
                            None => Some(shape),
                            Some(prev) => Some(sdf_union(prev, shape)),
                        };
                    }
                },
                None => {},
            }
            i = i + 1;
        }
        proof {
            assert(self.actors@.take(self.actors@.len() as int) =~= self.actors@);
        }
        match acc {
            Some(s) => s,
            None => sdf_unit_sphere(),
        }
    }
}

/// Fold shape values exactly as scene evaluation composes them: the
/// fallback unit sphere for none, the shape itself for one (stated as
/// plain equality), and a left-to-right union chain otherwise. Renderer
/// adapters use this to compose per-actor shapes they produced themselves
/// — for example timeline-bound shapes — with verified code.
pub fn compose_shapes(shapes: &Vec<SdfNode>) -> (r: SdfNode)
    ensures
        shapes@.len() == 1 ==> r == shapes@[0],
{
    let mut acc: Option<SdfNode> = None;
    let mut i: usize = 0;
    while i < shapes.len()
        invariant
            i <= shapes@.len(),
            acc is None <==> i == 0,
            i == 1 ==> acc == Some(shapes@[0]),
        decreases shapes@.len() - i,
    {
        let shape = shapes[i].clone();
        acc = match acc {
            None => Some(shape),
            Some(prev) => Some(sdf_union(prev, shape)),
        };
        i = i + 1;
    }
    match acc {
        Some(s) => s,
        None => sdf_unit_sphere(),
    }
}

impl Default for SceneGraph {
    /// Same as [`SceneGraph::new`].
    fn default() -> (r: SceneGraph)
        ensures
            r.wf(),
            r.spec_slots().len() == 0,
            r.spec_next_id() == 0,
            r.spec_roots().len() == 0,
    {
        SceneGraph::new()
    }
}

} // verus!
