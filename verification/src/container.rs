//! Encoders and decoders for the episode body's structure blocks: scene
//! graph, director and shading. Decoders validate every structural
//! invariant (sorted channels, sorted cut starts, unique identities) before
//! rebuilding a value, so a decoded value is well-formed by construction.

use vstd::prelude::*;

use alice_sdf::types::SdfNode;

use crate::camera::CameraTrack;
use crate::codec::{
    dec_bytes, dec_i64, dec_string, dec_u32, dec_u64, enc_bytes, enc_i64, enc_string, enc_u32,
    enc_u64,
};
use crate::director::{
    spec_sorted_by_start, Cut, CutId, Director, Episode, Scene,
};
use crate::npr::{AnimeShading, CelShading, OutlineConfig, Rgba};
use crate::scene::{Actor, ActorId, SceneGraph};
use crate::shape::{sdf_from_bytes, sdf_to_bytes};
use crate::track::{spec_sorted, Keyframe, Track};
use crate::transform::{ActorTransform, QuatMilli, Vec3Milli};

verus! {

/// The new buffer begins with the old one: encoders only append.
pub open spec fn spec_extends(before: Seq<u8>, after: Seq<u8>) -> bool {
    after.len() >= before.len() && after.subrange(0, before.len() as int) == before
}

/// Appending preserves the prefix.
pub proof fn lemma_extends_trans(a: Seq<u8>, b: Seq<u8>, c: Seq<u8>)
    requires
        spec_extends(a, b),
        spec_extends(b, c),
    ensures
        spec_extends(a, c),
{
    assert(c.subrange(0, a.len() as int) =~= b.subrange(0, b.len() as int).subrange(
        0,
        a.len() as int,
    ));
    assert(c.subrange(0, a.len() as int) =~= a);
}

/// Append one byte.
pub fn enc_u8(out: &mut Vec<u8>, v: u8)
    ensures
        final(out)@ == old(out)@ + seq![v],
{
    let ghost o0 = out@;
    out.push(v);
    proof {
        assert(out@ =~= o0 + seq![v]);
    }
}

/// Decode one byte.
pub fn dec_u8(data: &Vec<u8>, pos: usize) -> (r: Option<(u8, usize)>)
    ensures
        match r {
            Some(p) => pos + 1 <= data@.len() && p.1 == pos + 1 && data@[pos as int] == p.0,
            None => pos + 1 > data@.len(),
        },
{
    if pos < data.len() {
        Some((data[pos], pos + 1))
    } else {
        None
    }
}

/// Append a color.
pub fn enc_rgba(out: &mut Vec<u8>, c: &Rgba)
    ensures
        spec_extends(old(out)@, final(out)@),
{
    let ghost o0 = out@;
    enc_i64(out, c.r);
    enc_i64(out, c.g);
    enc_i64(out, c.b);
    enc_i64(out, c.a);
    proof {
        assert(out@.subrange(0, o0.len() as int) =~= o0);
    }
}

/// Decode a color.
pub fn dec_rgba(data: &Vec<u8>, pos: usize) -> (r: Option<(Rgba, usize)>)
    ensures
        r matches Some(p) ==> pos <= p.1 <= data@.len(),
{
    let (cr, p1) = match dec_i64(data, pos) {
        Some(p) => p,
        None => { return None; },
    };
    let (cg, p2) = match dec_i64(data, p1) {
        Some(p) => p,
        None => { return None; },
    };
    let (cb, p3) = match dec_i64(data, p2) {
        Some(p) => p,
        None => { return None; },
    };
    let (ca, p4) = match dec_i64(data, p3) {
        Some(p) => p,
        None => { return None; },
    };
    Some((Rgba { r: cr, g: cg, b: cb, a: ca }, p4))
}

/// Append a keyframe channel: name, sample count, then samples in order.
#[verifier::rlimit(60)]
pub fn enc_track(out: &mut Vec<u8>, t: &Track)
    ensures
        spec_extends(old(out)@, final(out)@),
{
    let ghost o0 = out@;
    enc_string(out, &t.name);
    enc_u64(out, t.samples.len() as u64);
    proof {
        assert(out@.subrange(0, o0.len() as int) =~= o0);
    }
    let mut i: usize = 0;
    while i < t.samples.len()
        invariant
            spec_extends(o0, out@),
        decreases t.samples@.len() - i,
    {
        let ghost mid = out@;
        enc_i64(out, t.samples[i].time);
        enc_i64(out, t.samples[i].value);
        proof {
            assert(out@.subrange(0, mid.len() as int) =~= mid);
            lemma_extends_trans(o0, mid, out@);
        }
        i = i + 1;
    }
    proof {
        assert(out@.subrange(0, o0.len() as int) =~= o0);
    }
}

/// Decode a keyframe channel, validating that sample times strictly
/// increase; the result is a well-formed track.
pub fn dec_track(data: &Vec<u8>, pos: usize) -> (r: Option<(Track, usize)>)
    ensures
        r matches Some(p) ==> pos <= p.1 <= data@.len() && p.0.wf(),
{
    let (name, p1) = match dec_string(data, pos) {
        Some(p) => p,
        None => { return None; },
    };
    let (count, p2) = match dec_u64(data, p1) {
        Some(p) => p,
        None => { return None; },
    };
    if count > usize::MAX as u64 {
        return None;
    }
    let n = count as usize;
    let mut samples: Vec<Keyframe> = Vec::new();
    let mut cursor = p2;
    let mut i: usize = 0;
    while i < n
        invariant
            pos <= cursor <= data@.len(),
            i <= n,
            spec_sorted(samples@),
            samples@.len() == i,
            forall|j: int|
                0 <= j < samples@.len() - 1 ==> (#[trigger] samples@[j]).time < samples@[samples@.len()
                    - 1].time,
        decreases n - i,
    {
        let (time, c1) = match dec_i64(data, cursor) {
            Some(p) => p,
            None => { return None; },
        };
        let (value, c2) = match dec_i64(data, c1) {
            Some(p) => p,
            None => { return None; },
        };
        if samples.len() > 0 && time <= samples[samples.len() - 1].time {
            return None;
        }
        let ghost s0 = samples@;
        samples.push(Keyframe { time, value });
        proof {
            assert(samples@.last().time == time);
            assert forall|p: int, q: int|
                0 <= p < q < samples@.len() implies samples@[p].time < samples@[q].time by {
                if q < samples@.len() - 1 {
                    assert(samples@[p] == s0[p] && samples@[q] == s0[q]);
                } else {
                    assert(samples@[p] == s0[p]);
                    if s0.len() > 0 {
                        if p == s0.len() - 1 {
                        } else {
                            assert(s0[p].time < s0[s0.len() - 1].time);
                        }
                    }
                }
            }
        }
        cursor = c2;
        i = i + 1;
    }
    Some((Track { name, samples }, cursor))
}

/// Append a camera track: the seven channels, then the shake scalars.
pub fn enc_camera(out: &mut Vec<u8>, c: &CameraTrack)
    ensures
        spec_extends(old(out)@, final(out)@),
{
    let ghost o0 = out@;
    enc_track(out, &c.position_x);
    enc_track_chain(out, &c.position_y, Ghost(o0));
    enc_track_chain(out, &c.position_z, Ghost(o0));
    enc_track_chain(out, &c.target_x, Ghost(o0));
    enc_track_chain(out, &c.target_y, Ghost(o0));
    enc_track_chain(out, &c.target_z, Ghost(o0));
    enc_track_chain(out, &c.fov_track, Ghost(o0));
    let ghost mid = out@;
    enc_i64(out, c.shake_amplitude);
    enc_i64(out, c.shake_frequency);
    proof {
        assert(out@.subrange(0, mid.len() as int) =~= mid);
        lemma_extends_trans(o0, mid, out@);
    }
}

/// Append a channel while carrying an extension fact from an earlier state.
fn enc_track_chain(out: &mut Vec<u8>, t: &Track, Ghost(base): Ghost<Seq<u8>>)
    requires
        spec_extends(base, old(out)@),
    ensures
        spec_extends(base, final(out)@),
{
    let ghost mid = out@;
    enc_track(out, t);
    proof {
        lemma_extends_trans(base, mid, out@);
    }
}

/// Decode a camera track; all channels come back well-formed.
pub fn dec_camera(data: &Vec<u8>, pos: usize) -> (r: Option<(CameraTrack, usize)>)
    ensures
        r matches Some(p) ==> pos <= p.1 <= data@.len() && p.0.wf(),
{
    let (px, p1) = match dec_track(data, pos) {
        Some(p) => p,
        None => { return None; },
    };
    let (py, p2) = match dec_track(data, p1) {
        Some(p) => p,
        None => { return None; },
    };
    let (pz, p3) = match dec_track(data, p2) {
        Some(p) => p,
        None => { return None; },
    };
    let (tx, p4) = match dec_track(data, p3) {
        Some(p) => p,
        None => { return None; },
    };
    let (ty, p5) = match dec_track(data, p4) {
        Some(p) => p,
        None => { return None; },
    };
    let (tz, p6) = match dec_track(data, p5) {
        Some(p) => p,
        None => { return None; },
    };
    let (fov, p7) = match dec_track(data, p6) {
        Some(p) => p,
        None => { return None; },
    };
    let (amp, p8) = match dec_i64(data, p7) {
        Some(p) => p,
        None => { return None; },
    };
    let (freq, p9) = match dec_i64(data, p8) {
        Some(p) => p,
        None => { return None; },
    };
    Some((
        CameraTrack {
            position_x: px,
            position_y: py,
            position_z: pz,
            target_x: tx,
            target_y: ty,
            target_z: tz,
            fov_track: fov,
            shake_amplitude: amp,
            shake_frequency: freq,
        },
        p9,
    ))
}

/// Append a named timeline: name, track count, then the tracks.
pub fn enc_timeline(out: &mut Vec<u8>, tl: &crate::track::Timeline)
    ensures
        spec_extends(old(out)@, final(out)@),
{
    let ghost o0 = out@;
    enc_string(out, &tl.name);
    enc_u64(out, tl.tracks.len() as u64);
    proof {
        assert(out@.subrange(0, o0.len() as int) =~= o0);
    }
    let mut i: usize = 0;
    while i < tl.tracks.len()
        invariant
            spec_extends(o0, out@),
        decreases tl.tracks@.len() - i,
    {
        let ghost mid = out@;
        enc_track(out, &tl.tracks[i]);
        proof {
            lemma_extends_trans(o0, mid, out@);
        }
        i = i + 1;
    }
}

/// Decode a named timeline; every track comes back well-formed, so the
/// timeline does too.
pub fn dec_timeline(data: &Vec<u8>, pos: usize) -> (r: Option<(crate::track::Timeline, usize)>)
    ensures
        r matches Some(p) ==> pos <= p.1 <= data@.len() && p.0.wf(),
{
    let (name, p1) = match dec_string(data, pos) {
        Some(p) => p,
        None => { return None; },
    };
    let (count, p2) = match dec_u64(data, p1) {
        Some(p) => p,
        None => { return None; },
    };
    if count > usize::MAX as u64 {
        return None;
    }
    let n = count as usize;
    let mut tracks: Vec<Track> = Vec::new();
    let mut cursor = p2;
    let mut i: usize = 0;
    while i < n
        invariant
            pos <= cursor <= data@.len(),
            i <= n,
            forall|j: int| 0 <= j < tracks@.len() ==> (#[trigger] tracks@[j]).wf(),
        decreases n - i,
    {
        let (t, c) = match dec_track(data, cursor) {
            Some(p) => p,
            None => { return None; },
        };
        tracks.push(t);
        cursor = c;
        i = i + 1;
    }
    Some((crate::track::Timeline { name, tracks }, cursor))
}

/// Append a transform as its ten scalar components.
pub fn enc_transform(out: &mut Vec<u8>, t: &ActorTransform)
    ensures
        spec_extends(old(out)@, final(out)@),
{
    let ghost o0 = out@;
    enc_i64(out, t.position.x);
    enc_i64(out, t.position.y);
    enc_i64(out, t.position.z);
    enc_i64(out, t.rotation.x);
    enc_i64(out, t.rotation.y);
    enc_i64(out, t.rotation.z);
    enc_i64(out, t.rotation.w);
    enc_i64(out, t.scale.x);
    enc_i64(out, t.scale.y);
    enc_i64(out, t.scale.z);
    proof {
        assert(out@.subrange(0, o0.len() as int) =~= o0);
    }
}

/// Decode a transform.
pub fn dec_transform(data: &Vec<u8>, pos: usize) -> (r: Option<(ActorTransform, usize)>)
    ensures
        r matches Some(p) ==> pos <= p.1 <= data@.len(),
{
    let mut vals: Vec<i64> = Vec::new();
    let mut cursor = pos;
    let mut i: usize = 0;
    while i < 10
        invariant
            pos <= cursor,
            i > 0 ==> cursor <= data@.len(),
            vals@.len() == i,
            i <= 10,
        decreases 10 - i,
    {
        let (v, c) = match dec_i64(data, cursor) {
            Some(p) => p,
            None => { return None; },
        };
        vals.push(v);
        cursor = c;
        i = i + 1;
    }
    Some((
        ActorTransform {
            position: Vec3Milli { x: vals[0], y: vals[1], z: vals[2] },
            rotation: QuatMilli { x: vals[3], y: vals[4], z: vals[5], w: vals[6] },
            scale: Vec3Milli { x: vals[7], y: vals[8], z: vals[9] },
        },
        cursor,
    ))
}

/// Append an actor: name, shape bytes, transform, parent, visibility.
pub fn enc_actor(out: &mut Vec<u8>, a: &Actor)
    ensures
        spec_extends(old(out)@, final(out)@),
{
    let ghost o0 = out@;
    enc_string(out, &a.name);
    let blob = sdf_to_bytes(&a.base_sdf);
    enc_bytes(out, &blob);
    let ghost m1 = out@;
    proof {
        assert(m1.subrange(0, o0.len() as int) =~= o0);
    }
    enc_transform(out, &a.local_transform);
    proof {
        lemma_extends_trans(o0, m1, out@);
    }
    let ghost mt = out@;
    match &a.timeline {
        Some(tl) => {
            enc_u8(out, 1);
            let ghost mt1 = out@;
            proof {
                assert(mt1.subrange(0, mt.len() as int) =~= mt);
            }
            enc_timeline(out, tl);
            proof {
                lemma_extends_trans(mt, mt1, out@);
            }
        },
        None => {
            enc_u8(out, 0);
            proof {
                assert(out@.subrange(0, mt.len() as int) =~= mt);
            }
        },
    }
    proof {
        lemma_extends_trans(o0, mt, out@);
    }
    let ghost m2 = out@;
    match a.parent {
        Some(p) => {
            enc_u8(out, 1);
            enc_u32(out, p.0);
        },
        None => {
            enc_u8(out, 0);
        },
    }
    enc_u8(out, if a.visible {
        1
    } else {
        0
    });
    proof {
        assert(out@.subrange(0, m2.len() as int) =~= m2);
        lemma_extends_trans(o0, m2, out@);
    }
}

/// Decode an actor; fails when the embedded shape bytes do not decode.
pub fn dec_actor(data: &Vec<u8>, pos: usize) -> (r: Option<(Actor, usize)>)
    ensures
        r matches Some(p) ==> pos <= p.1 <= data@.len(),
{
    let (name, p1) = match dec_string(data, pos) {
        Some(p) => p,
        None => { return None; },
    };
    let (blob, p2) = match dec_bytes(data, p1) {
        Some(p) => p,
        None => { return None; },
    };
    let base_sdf: SdfNode = match sdf_from_bytes(blob.as_slice()) {
        Some(s) => s,
        None => { return None; },
    };
    let (transform, p3) = match dec_transform(data, p2) {
        Some(p) => p,
        None => { return None; },
    };
    let (tl_tag, pt) = match dec_u8(data, p3) {
        Some(p) => p,
        None => { return None; },
    };
    let (timeline, p3b) = if tl_tag == 1 {
        match dec_timeline(data, pt) {
            Some((tl, c)) => (Some(tl), c),
            None => { return None; },
        }
    } else if tl_tag == 0 {
        (None, pt)
    } else {
        return None;
    };
    let (tag, p4) = match dec_u8(data, p3b) {
        Some(p) => p,
        None => { return None; },
    };
    let (parent, p5) = if tag == 1 {
        match dec_u32(data, p4) {
            Some((v, c)) => (Some(ActorId(v)), c),
            None => { return None; },
        }
    } else if tag == 0 {
        (None, p4)
    } else {
        return None;
    };
    let (vis, p6) = match dec_u8(data, p5) {
        Some(p) => p,
        None => { return None; },
    };
    if vis > 1 {
        return None;
    }
    Some((
        Actor {
            name,
            base_sdf,
            timeline,
            local_transform: transform,
            parent,
            visible: vis == 1,
        },
        p6,
    ))
}

/// Append the scene graph: slots (with an occupancy tag each), the next
/// handle, and the root list.
pub fn enc_scene_graph(out: &mut Vec<u8>, sg: &SceneGraph)
    ensures
        spec_extends(old(out)@, final(out)@),
{
    let ghost o0 = out@;
    let slots = sg.slots_ref();
    enc_u64(out, slots.len() as u64);
    proof {
        assert(out@.subrange(0, o0.len() as int) =~= o0);
    }
    let mut i: usize = 0;
    while i < slots.len()
        invariant
            spec_extends(o0, out@),
            slots@ == sg.spec_slots(),
        decreases slots@.len() - i,
    {
        let ghost mid = out@;
        match &slots[i] {
            Some(a) => {
                enc_u8(out, 1);
                let ghost m1 = out@;
                proof {
                    assert(m1.subrange(0, mid.len() as int) =~= mid);
                }
                enc_actor(out, a);
                proof {
                    lemma_extends_trans(mid, m1, out@);
                }
            },
            None => {
                enc_u8(out, 0);
                proof {
                    assert(out@.subrange(0, mid.len() as int) =~= mid);
                }
            },
        }
        proof {
            lemma_extends_trans(o0, mid, out@);
        }
        i = i + 1;
    }
    let ghost m2 = out@;
    enc_u32(out, sg.raw_next_id());
    let roots = sg.roots_ref();
    enc_u64(out, roots.len() as u64);
    let mut j: usize = 0;
    let ghost m3 = out@;
    proof {
        assert(m3.subrange(0, m2.len() as int) =~= m2);
        lemma_extends_trans(o0, m2, m3);
    }
    while j < roots.len()
        invariant
            spec_extends(o0, out@),
        decreases roots@.len() - j,
    {
        let ghost mid = out@;
        enc_u32(out, roots[j].0);
        proof {
            assert(out@.subrange(0, mid.len() as int) =~= mid);
            lemma_extends_trans(o0, mid, out@);
        }
        j = j + 1;
    }
}

/// Decode the scene graph, validating that the slot count does not exceed
/// the next handle; the result is well-formed.
pub fn dec_scene_graph(data: &Vec<u8>, pos: usize) -> (r: Option<(SceneGraph, usize)>)
    ensures
        r matches Some(p) ==> pos <= p.1 <= data@.len() && p.0.wf(),
{
    let (slot_count, p1) = match dec_u64(data, pos) {
        Some(p) => p,
        None => { return None; },
    };
    if slot_count > usize::MAX as u64 {
        return None;
    }
    let n = slot_count as usize;
    let mut slots: Vec<Option<Actor>> = Vec::new();
    let mut cursor = p1;
    let mut i: usize = 0;
    while i < n
        invariant
            pos <= cursor <= data@.len(),
            i <= n,
            slots@.len() == i,
        decreases n - i,
    {
        let (tag, c1) = match dec_u8(data, cursor) {
            Some(p) => p,
            None => { return None; },
        };
        if tag == 1 {
            let (actor, c2) = match dec_actor(data, c1) {
                Some(p) => p,
                None => { return None; },
            };
            slots.push(Some(actor));
            cursor = c2;
        } else if tag == 0 {
            slots.push(None);
            cursor = c1;
        } else {
            return None;
        }
        i = i + 1;
    }
    let (next_id, p2) = match dec_u32(data, cursor) {
        Some(p) => p,
        None => { return None; },
    };
    if slots.len() as u64 > next_id as u64 {
        return None;
    }
    let (root_count, p3) = match dec_u64(data, p2) {
        Some(p) => p,
        None => { return None; },
    };
    if root_count > usize::MAX as u64 {
        return None;
    }
    let rn = root_count as usize;
    let mut roots: Vec<ActorId> = Vec::new();
    let mut cursor2 = p3;
    let mut j: usize = 0;
    while j < rn
        invariant
            pos <= cursor2 <= data@.len(),
            j <= rn,
        decreases rn - j,
    {
        let (v, c) = match dec_u32(data, cursor2) {
            Some(p) => p,
            None => { return None; },
        };
        roots.push(ActorId(v));
        cursor2 = c;
        j = j + 1;
    }
    Some((SceneGraph::from_parts(slots, next_id, roots), cursor2))
}

/// Append a cut with its identity.
pub fn enc_cut_entry(out: &mut Vec<u8>, id: CutId, c: &Cut)
    ensures
        spec_extends(old(out)@, final(out)@),
{
    let ghost o0 = out@;
    enc_u32(out, id.0);
    enc_string(out, &c.name);
    enc_i64(out, c.start_time);
    enc_i64(out, c.end_time);
    let ghost m1 = out@;
    proof {
        assert(m1.subrange(0, o0.len() as int) =~= o0);
    }
    enc_camera(out, &c.camera);
    proof {
        lemma_extends_trans(o0, m1, out@);
    }
    let ghost m2 = out@;
    enc_u64(out, c.active_actors.len() as u64);
    let ghost m3 = out@;
    proof {
        assert(m3.subrange(0, m2.len() as int) =~= m2);
        lemma_extends_trans(o0, m2, m3);
    }
    let mut i: usize = 0;
    while i < c.active_actors.len()
        invariant
            spec_extends(o0, out@),
        decreases c.active_actors@.len() - i,
    {
        let ghost mid = out@;
        enc_u32(out, c.active_actors[i].0);
        proof {
            assert(out@.subrange(0, mid.len() as int) =~= mid);
            lemma_extends_trans(o0, mid, out@);
        }
        i = i + 1;
    }
    let ghost m4 = out@;
    enc_i64(out, c.rcp_duration);
    proof {
        assert(out@.subrange(0, m4.len() as int) =~= m4);
        lemma_extends_trans(o0, m4, out@);
    }
}

/// Decode a cut with its identity; the camera comes back well-formed.
pub fn dec_cut_entry(data: &Vec<u8>, pos: usize) -> (r: Option<((CutId, Cut), usize)>)
    ensures
        r matches Some(p) ==> pos <= p.1 <= data@.len() && p.0.1.wf(),
{
    let (idv, p1) = match dec_u32(data, pos) {
        Some(p) => p,
        None => { return None; },
    };
    let (name, p2) = match dec_string(data, p1) {
        Some(p) => p,
        None => { return None; },
    };
    let (start, p3) = match dec_i64(data, p2) {
        Some(p) => p,
        None => { return None; },
    };
    let (end, p4) = match dec_i64(data, p3) {
        Some(p) => p,
        None => { return None; },
    };
    let (camera, p5) = match dec_camera(data, p4) {
        Some(p) => p,
        None => { return None; },
    };
    let (actor_count, p6) = match dec_u64(data, p5) {
        Some(p) => p,
        None => { return None; },
    };
    if actor_count > usize::MAX as u64 {
        return None;
    }
    let an = actor_count as usize;
    let mut actors: Vec<ActorId> = Vec::new();
    let mut cursor = p6;
    let mut i: usize = 0;
    while i < an
        invariant
            pos <= cursor <= data@.len(),
            i <= an,
        decreases an - i,
    {
        let (v, c) = match dec_u32(data, cursor) {
            Some(p) => p,
            None => { return None; },
        };
        actors.push(ActorId(v));
        cursor = c;
        i = i + 1;
    }
    let (rcp, p7) = match dec_i64(data, cursor) {
        Some(p) => p,
        None => { return None; },
    };
    let cut = Cut {
        name,
        start_time: start,
        end_time: end,
        camera,
        active_actors: actors,
        rcp_duration: rcp,
    };
    Some(((CutId(idv), cut), p7))
}

/// Append the director: the episode naming hierarchy, the sorted cut
/// sequence with identities, and the identity counter.
pub fn enc_director(out: &mut Vec<u8>, d: &Director)
    ensures
        spec_extends(old(out)@, final(out)@),
{
    let ghost o0 = out@;
    let ep = d.episode_ref();
    enc_string(out, &ep.name);
    enc_u64(out, ep.scenes.len() as u64);
    proof {
        assert(out@.subrange(0, o0.len() as int) =~= o0);
    }
    let mut i: usize = 0;
    while i < ep.scenes.len()
        invariant
            spec_extends(o0, out@),
        decreases ep.scenes@.len() - i,
    {
        let ghost mid = out@;
        let sc = &ep.scenes[i];
        enc_string(out, &sc.name);
        enc_u64(out, sc.cuts.len() as u64);
        proof {
            assert(out@.subrange(0, mid.len() as int) =~= mid);
            lemma_extends_trans(o0, mid, out@);
        }
        let mut j: usize = 0;
        while j < sc.cuts.len()
            invariant
                spec_extends(o0, out@),
            decreases sc.cuts@.len() - j,
        {
            let ghost mid2 = out@;
            enc_u32(out, sc.cuts[j].0);
            proof {
                assert(out@.subrange(0, mid2.len() as int) =~= mid2);
                lemma_extends_trans(o0, mid2, out@);
            }
            j = j + 1;
        }
        i = i + 1;
    }
    let cuts = d.cuts_ref();
    let ghost m1 = out@;
    enc_u64(out, cuts.len() as u64);
    proof {
        assert(out@.subrange(0, m1.len() as int) =~= m1);
        lemma_extends_trans(o0, m1, out@);
    }
    let mut k: usize = 0;
    while k < cuts.len()
        invariant
            spec_extends(o0, out@),
            cuts@ == d.spec_cuts(),
        decreases cuts@.len() - k,
    {
        let ghost mid = out@;
        enc_cut_entry(out, cuts[k].0, &cuts[k].1);
        proof {
            lemma_extends_trans(o0, mid, out@);
        }
        k = k + 1;
    }
    let ghost m2 = out@;
    enc_u32(out, d.raw_next_id());
    proof {
        assert(out@.subrange(0, m2.len() as int) =~= m2);
        lemma_extends_trans(o0, m2, out@);
    }
}

/// Decode the director, validating sorted starts, unique identities, and
/// the identity bound; the result is well-formed.
pub fn dec_director(data: &Vec<u8>, pos: usize) -> (r: Option<(Director, usize)>)
    ensures
        r matches Some(p) ==> pos <= p.1 <= data@.len() && p.0.wf(),
{
    let (ep_name, p1) = match dec_string(data, pos) {
        Some(p) => p,
        None => { return None; },
    };
    let (scene_count, p2) = match dec_u64(data, p1) {
        Some(p) => p,
        None => { return None; },
    };
    if scene_count > usize::MAX as u64 {
        return None;
    }
    let sn = scene_count as usize;
    let mut scenes: Vec<Scene> = Vec::new();
    let mut cursor = p2;
    let mut i: usize = 0;
    while i < sn
        invariant
            pos <= cursor <= data@.len(),
            i <= sn,
        decreases sn - i,
    {
        let (s_name, c1) = match dec_string(data, cursor) {
            Some(p) => p,
            None => { return None; },
        };
        let (cut_ref_count, c2) = match dec_u64(data, c1) {
            Some(p) => p,
            None => { return None; },
        };
        if cut_ref_count > usize::MAX as u64 {
            return None;
        }
        let cn = cut_ref_count as usize;
        let mut cut_ids: Vec<CutId> = Vec::new();
        let mut c3 = c2;
        let mut j: usize = 0;
        while j < cn
            invariant
                pos <= c3 <= data@.len(),
                j <= cn,
            decreases cn - j,
        {
            let (v, c) = match dec_u32(data, c3) {
                Some(p) => p,
                None => { return None; },
            };
            cut_ids.push(CutId(v));
            c3 = c;
            j = j + 1;
        }
        scenes.push(Scene { name: s_name, cuts: cut_ids });
        cursor = c3;
        i = i + 1;
    }
    let (cut_count, p3) = match dec_u64(data, cursor) {
        Some(p) => p,
        None => { return None; },
    };
    if cut_count > usize::MAX as u64 {
        return None;
    }
    let kn = cut_count as usize;
    let mut cuts: Vec<(CutId, Cut)> = Vec::new();
    let mut cursor2 = p3;
    let mut k: usize = 0;
    while k < kn
        invariant
            pos <= cursor2 <= data@.len(),
            k <= kn,
            cuts@.len() == k,
            spec_sorted_by_start(cuts@),
            forall|j: int| 0 <= j < cuts@.len() ==> (#[trigger] cuts@[j]).1.wf(),
        decreases kn - k,
    {
        let (entry, c) = match dec_cut_entry(data, cursor2) {
            Some(p) => p,
            None => { return None; },
        };
        if cuts.len() > 0 && entry.1.start_time < cuts[cuts.len() - 1].1.start_time {
            return None;
        }
        let ghost c0 = cuts@;
        proof {
            if c0.len() > 0 {
                assert(forall|j: int|
                    0 <= j < c0.len() ==> (#[trigger] c0[j]).1.start_time <= c0[c0.len()
                        - 1].1.start_time);
            }
        }
        cuts.push(entry);
        proof {
            assert forall|p: int, q: int|
                0 <= p < q < cuts@.len() implies (#[trigger] cuts@[p]).1.start_time <= (
                #[trigger] cuts@[q]).1.start_time by {
                if q < cuts@.len() - 1 {
                    assert(cuts@[p] == c0[p] && cuts@[q] == c0[q]);
                } else {
                    assert(cuts@[p] == c0[p]);
                }
            }
        }
        cursor2 = c;
        k = k + 1;
    }
    let (next_id, p4) = match dec_u32(data, cursor2) {
        Some(p) => p,
        None => { return None; },
    };
    // Validate unique identities below the counter.
    let mut a: usize = 0;
    while a < cuts.len()
        invariant
            a <= cuts@.len(),
            forall|i2: int, j2: int|
                0 <= i2 < a && i2 < j2 < cuts@.len() ==> (#[trigger] cuts@[i2]).0 != (
                #[trigger] cuts@[j2]).0,
            forall|i2: int| 0 <= i2 < a ==> (#[trigger] cuts@[i2]).0.0 < next_id,
        decreases cuts@.len() - a,
    {
        if cuts[a].0.0 >= next_id {
            return None;
        }
        let mut b: usize = a + 1;
        while b < cuts.len()
            invariant
                a < b || b == a + 1,
                a < cuts@.len(),
                a + 1 <= b <= cuts@.len(),
                forall|j2: int| a < j2 < b ==> (#[trigger] cuts@[j2]).0 != cuts@[a as int].0,
            decreases cuts@.len() - b,
        {
            if cuts[b].0.0 == cuts[a].0.0 {
                return None;
            }
            b = b + 1;
        }
        a = a + 1;
    }
    let episode = Episode { name: ep_name, scenes };
    Some((Director::from_parts(episode, cuts, next_id), p4))
}

/// Append the shading bundle.
pub fn enc_shading(out: &mut Vec<u8>, s: &AnimeShading)
    ensures
        spec_extends(old(out)@, final(out)@),
{
    let ghost o0 = out@;
    enc_u32(out, s.cel_shading.shadow_steps);
    proof {
        assert(out@.subrange(0, o0.len() as int) =~= o0);
    }
    let ghost m1 = out@;
    enc_rgba(out, &s.cel_shading.shadow_color);
    proof {
        lemma_extends_trans(o0, m1, out@);
    }
    let ghost m2 = out@;
    enc_rgba(out, &s.cel_shading.highlight_color);
    proof {
        lemma_extends_trans(o0, m2, out@);
    }
    let ghost m3 = out@;
    enc_u64(out, s.cel_shading.thresholds.len() as u64);
    proof {
        assert(out@.subrange(0, m3.len() as int) =~= m3);
        lemma_extends_trans(o0, m3, out@);
    }
    let mut i: usize = 0;
    while i < s.cel_shading.thresholds.len()
        invariant
            spec_extends(o0, out@),
        decreases s.cel_shading.thresholds@.len() - i,
    {
        let ghost mid = out@;
        enc_i64(out, s.cel_shading.thresholds[i]);
        proof {
            assert(out@.subrange(0, mid.len() as int) =~= mid);
            lemma_extends_trans(o0, mid, out@);
        }
        i = i + 1;
    }
    let ghost m4 = out@;
    enc_i64(out, s.outline.width);
    proof {
        assert(out@.subrange(0, m4.len() as int) =~= m4);
        lemma_extends_trans(o0, m4, out@);
    }
    let ghost m5 = out@;
    enc_rgba(out, &s.outline.color);
    proof {
        lemma_extends_trans(o0, m5, out@);
    }
    let ghost m6 = out@;
    enc_i64(out, s.outline.epsilon);
    enc_i64(out, s.outline.depth_fade);
    enc_i64(out, s.ao_strength);
    enc_i64(out, s.rim_light);
    proof {
        assert(out@.subrange(0, m6.len() as int) =~= m6);
        lemma_extends_trans(o0, m6, out@);
    }
}

/// Decode the shading bundle.
pub fn dec_shading(data: &Vec<u8>, pos: usize) -> (r: Option<(AnimeShading, usize)>)
    ensures
        r matches Some(p) ==> pos <= p.1 <= data@.len(),
{
    let (steps, p1) = match dec_u32(data, pos) {
        Some(p) => p,
        None => { return None; },
    };
    let (shadow, p2) = match dec_rgba(data, p1) {
        Some(p) => p,
        None => { return None; },
    };
    let (highlight, p3) = match dec_rgba(data, p2) {
        Some(p) => p,
        None => { return None; },
    };
    let (tcount, p4) = match dec_u64(data, p3) {
        Some(p) => p,
        None => { return None; },
    };
    if tcount > usize::MAX as u64 {
        return None;
    }
    let tn = tcount as usize;
    let mut thresholds: Vec<i64> = Vec::new();
    let mut cursor = p4;
    let mut i: usize = 0;
    while i < tn
        invariant
            pos <= cursor <= data@.len(),
            i <= tn,
        decreases tn - i,
    {
        let (v, c) = match dec_i64(data, cursor) {
            Some(p) => p,
            None => { return None; },
        };
        thresholds.push(v);
        cursor = c;
        i = i + 1;
    }
    let (width, p5) = match dec_i64(data, cursor) {
        Some(p) => p,
        None => { return None; },
    };
    let (color, p6) = match dec_rgba(data, p5) {
        Some(p) => p,
        None => { return None; },
    };
    let (epsilon, p7) = match dec_i64(data, p6) {
        Some(p) => p,
        None => { return None; },
    };
    let (depth_fade, p8) = match dec_i64(data, p7) {
        Some(p) => p,
        None => { return None; },
    };
    let (ao, p9) = match dec_i64(data, p8) {
        Some(p) => p,
        None => { return None; },
    };
    let (rim, p10) = match dec_i64(data, p9) {
        Some(p) => p,
        None => { return None; },
    };
    Some((
        AnimeShading {
            cel_shading: CelShading {
                shadow_steps: steps,
                shadow_color: shadow,
                highlight_color: highlight,
                thresholds,
            },
            outline: OutlineConfig { width, color, epsilon, depth_fade },
            ao_strength: ao,
            rim_light: rim,
        },
        p10,
    ))
}

} // verus!
