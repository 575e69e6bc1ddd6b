//! Episode container framing, round trips and corruption detection.

use alice_animation::director::{Cut, Director};
use alice_animation::episode::{
    deserialize_episode, roundtrip_check, serialize_episode, DecodeError, EpisodeMetadata,
    EpisodePackage,
};
use alice_animation::npr::AnimeShading;
use alice_animation::scene::{Actor, SceneGraph};
use alice_animation::track::{Timeline, Track};
use alice_sdf::types::SdfNode;

fn make_test_episode() -> EpisodePackage {
    let mut sg = SceneGraph::new();
    let id_a = sg.add_actor(Actor::new("hero", SdfNode::sphere(1.0)));
    let id_b = sg.add_actor(Actor::new("villain", SdfNode::box3d(1.0, 1.0, 1.0)));

    let mut dir = Director::new("Test Episode");
    let _c1 = dir.add_cut(Cut::new("intro", 0, 3000).with_actors(vec![id_a]));
    let _c2 = dir.add_cut(Cut::new("battle", 3000, 8000).with_actors(vec![id_a, id_b]));

    let meta = EpisodeMetadata::new("Test", 1, 8000);
    EpisodePackage::new(meta, sg, dir, AnimeShading::default())
}

#[test]
fn test_serialize_deserialize_roundtrip() {
    let episode = make_test_episode();
    let buf = serialize_episode(&episode).unwrap();
    let written = buf.len();
    assert!(written > 16);
    assert!(written < 10000);

    let restored = deserialize_episode(&buf).unwrap();
    assert_eq!(restored.metadata.title, "Test");
    assert_eq!(restored.metadata.episode_number, 1);
    assert_eq!(restored.scene_graph.actor_count(), 2);
    assert_eq!(restored.director.cut_count(), 2);
}

#[test]
fn test_invalid_magic() {
    let buf: Vec<u8> = b"BADMxxxxxxxxxxxxbody".to_vec();
    assert!(deserialize_episode(&buf).is_err());
    assert!(matches!(deserialize_episode(&buf), Err(DecodeError::InvalidMagic)));
}

#[test]
fn test_estimate_size() {
    let episode = make_test_episode();
    let est = episode.estimate_size();
    assert!(est > 0);
}

#[test]
fn test_roundtrip_check_reproduces_summary() {
    let episode = make_test_episode();
    let restored = roundtrip_check(&episode).expect("round trip must succeed");
    assert_eq!(restored.metadata.title, episode.metadata.title);
    assert_eq!(restored.metadata.duration_ms, 8000);
    assert_eq!(restored.scene_graph.actor_count(), 2);
    assert_eq!(restored.director.cut_count(), 2);
    assert_eq!(restored.director.duration(), 8000);
}

#[test]
fn test_unsupported_version_rejected() {
    let episode = make_test_episode();
    let mut buf = serialize_episode(&episode).unwrap();
    buf[4] = 9;
    assert!(matches!(
        deserialize_episode(&buf),
        Err(DecodeError::UnsupportedVersion { version: 9 })
    ));
}

#[test]
fn test_truncated_artifact_rejected() {
    let episode = make_test_episode();
    let buf = serialize_episode(&episode).unwrap();
    let short: Vec<u8> = buf[0..10].to_vec();
    assert!(matches!(deserialize_episode(&short), Err(DecodeError::Truncated)));
    let clipped: Vec<u8> = buf[0..buf.len() - 1].to_vec();
    assert!(matches!(deserialize_episode(&clipped), Err(DecodeError::Truncated)));
}

#[test]
fn test_corruption_fails_with_checksum_mismatch() {
    // Flipping any body byte must surface as a checksum mismatch, never a
    // silent misparse.
    let episode = make_test_episode();
    let buf = serialize_episode(&episode).unwrap();
    let body_len = buf.len() - 16;
    let step = if body_len > 40 { body_len / 20 } else { 1 };
    let mut i = 0;
    while i < body_len {
        let mut corrupted = buf.clone();
        corrupted[16 + i] ^= 0xff;
        match deserialize_episode(&corrupted) {
            Err(DecodeError::CrcMismatch { .. }) => {},
            other => panic!("expected a checksum mismatch, got {:?}", other),
        }
        i += step;
    }
}

#[test]
fn test_actor_timeline_is_persisted() {
    let mut motion = Timeline::new("bounce");
    let mut ty = Track::new("translate.y");
    ty.add_keyframe(0, 0);
    ty.add_keyframe(1000, 2000);
    motion.add_track(ty);

    let mut sg = SceneGraph::new();
    let id = sg.add_actor(Actor::new("hero", SdfNode::sphere(1.0)).with_timeline(motion));
    let dir = Director::new("Motion");
    let meta = EpisodeMetadata::new("Motion Test", 2, 1000);
    let episode = EpisodePackage::new(meta, sg, dir, AnimeShading::default());

    let buf = serialize_episode(&episode).unwrap();
    let restored = deserialize_episode(&buf).unwrap();
    let actor = restored.scene_graph.get_actor(id).expect("actor restored");
    let tl = actor.timeline.as_ref().expect("timeline restored");
    assert_eq!(tl.name, "bounce");
    assert_eq!(tl.get_value("translate.y", 500), Some(1000));
}

#[test]
fn test_artifact_magic_bytes() {
    let episode = make_test_episode();
    let buf = serialize_episode(&episode).unwrap();
    assert_eq!(&buf[0..4], b"ANIM");
    assert_eq!(buf[4], 1);
    assert_eq!(buf[5], 0);
    assert_eq!(buf[6], 0);
    assert_eq!(buf[7], 0);
}
