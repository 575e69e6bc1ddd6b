//! End-to-end: a two-actor, two-cut episode built, evaluated, serialized
//! and restored.

use alice_animation::camera::{
    CameraTrack, DistortionParams, DistortionType, FakePerspective,
};
use alice_animation::director::{Cut, Director};
use alice_animation::episode::{
    deserialize_episode, serialize_episode, EpisodeMetadata, EpisodePackage,
};
use alice_animation::npr::{AnimeShading, CelShading, OutlineConfig};
use alice_animation::scene::{Actor, SceneGraph};
use alice_animation::transform::{ActorTransform, Vec3Milli};
use alice_sdf::types::SdfNode;

#[test]
fn test_full_episode_roundtrip() {
    // 1. Build a scene graph with two actors.
    let mut sg = SceneGraph::new();
    let hero_id = sg.add_actor(Actor::new("hero", SdfNode::sphere(1.0)));
    let villain_id = sg.add_actor(
        Actor::new("villain", SdfNode::box3d(1.0, 1.0, 1.0)).with_transform(ActorTransform {
            position: Vec3Milli::new(5000, 0, 0),
            ..Default::default()
        }),
    );
    assert_eq!(sg.actor_count(), 2);

    // 2. Build a director with two cuts.
    let mut dir = Director::new("Integration Episode");
    let _cut1 = dir.add_cut(Cut::new("intro", 0, 3000).with_actors(vec![hero_id]));
    let _cut2 = dir.add_cut(Cut::new("battle", 3000, 8000).with_actors(vec![hero_id, villain_id]));
    assert_eq!(dir.cut_count(), 2);
    assert_eq!(dir.duration(), 8000);

    // 3. Director evaluation.
    let state_intro = dir.evaluate(&sg, 1000);
    assert!(state_intro.active_cut.is_some());
    let state_battle = dir.evaluate(&sg, 5000);
    assert!(state_battle.active_cut.is_some());
    let state_none = dir.evaluate(&sg, 10000);
    assert!(state_none.active_cut.is_none());

    // 4. Scene shape composition.
    let sdf = sg.evaluate_scene(0);
    match &sdf {
        SdfNode::Union { .. } => {},
        _ => panic!("Expected Union of 2 actors"),
    }

    // 5. Shading setup.
    let shading = AnimeShading {
        cel_shading: CelShading { shadow_steps: 3, thresholds: vec![300, 700], ..Default::default() },
        outline: OutlineConfig { width: 30, epsilon: 5, ..Default::default() },
        ..Default::default()
    };
    assert_eq!(shading.cel_shading.quantize(100), 0);
    assert_eq!(shading.cel_shading.quantize(500), 333);
    assert_eq!(shading.cel_shading.quantize(900), 666);
    assert!(shading.outline.is_outline(10));
    assert!(!shading.outline.is_outline(1000));

    // 6. Package.
    let meta = EpisodeMetadata::new("Integration Test", 1, 8000);
    let episode = EpisodePackage::new(meta, sg, dir, shading);

    // 7. Serialize to the framed binary artifact.
    let buf = serialize_episode(&episode).unwrap();
    let written = buf.len();
    assert!(written > 16, "Must have header + body");
    assert!(written < 50000, "Episode should be compact (~KB)");
    assert_eq!(&buf[0..4], b"ANIM");

    // 8. Deserialize and verify integrity.
    let restored = deserialize_episode(&buf).unwrap();
    assert_eq!(restored.metadata.title, "Integration Test");
    assert_eq!(restored.metadata.episode_number, 1);
    assert_eq!(restored.metadata.duration_ms, 8000);
    assert_eq!(restored.scene_graph.actor_count(), 2);
    assert_eq!(restored.director.cut_count(), 2);
    assert_eq!(restored.director.duration(), 8000);

    // 9. Fake perspective parameters.
    let fp = FakePerspective::new("kanada_pers", DistortionType::Projective, 1500);
    match fp.distortion_params() {
        DistortionParams::Projective { .. } => {},
        _ => panic!("Expected ProjectiveTransform"),
    }
}

#[test]
fn test_camera_full_pipeline() {
    let mut track = CameraTrack::default();
    track.add_keyframe(0, Vec3Milli::new(0, 0, 10000), Vec3Milli::new(0, 0, 0), 785);
    track.add_keyframe(5000, Vec3Milli::new(10000, 5000, 10000), Vec3Milli::new(5000, 0, 0), 1047);

    for i in 0..=50i64 {
        let t = i * 100;
        let state = track.evaluate(t);
        assert!(state.fov > 0);
        let fwd = state.forward();
        assert!(fwd.x.abs() <= 1000 && fwd.y.abs() <= 1000 && fwd.z.abs() <= 1000);
    }
}
