//! Adapter modules: playback state, caching, distribution, persistence,
//! compression and assisted animation.

use alice_animation::browser_bridge::{PlayerState, RenderQuality, WebPlayer, WebPlayerConfig};
use alice_animation::cache_bridge::AnimationCache;
use alice_animation::cdn_bridge::{bandwidth_savings_ratio, episode_to_cdn_descriptor, CdnCacheHint};
use alice_animation::codec_bridge::{compress_episode, decompress_episode};
use alice_animation::db_bridge::{EpisodeQuery, EpisodeRecord};
use alice_animation::director::{Cut, Director};
use alice_animation::episode::{EpisodeMetadata, EpisodePackage};
use alice_animation::ml_bridge::{
    apply_easing, generate_inbetweens, suggest_camera, EasingHint, InbetweenRequest,
};
use alice_animation::npr::AnimeShading;
use alice_animation::scene::{Actor, SceneGraph};
use alice_animation::transform::{ActorTransform, QuatMilli, Vec3Milli};
use alice_sdf::types::SdfNode;

#[test]
fn test_render_quality_scale() {
    assert_eq!(RenderQuality::Low.scale_factor(), 250);
    assert_eq!(RenderQuality::High.scale_factor(), 1000);
    assert_eq!(RenderQuality::Ultra.scale_factor(), 2000);
}

#[test]
fn test_player_state() {
    let mut state = PlayerState::new();
    assert_eq!(state.current_time, 0);
    assert!(!state.playing);

    state.toggle_play();
    state.advance(1000);
    assert_eq!(state.current_time, 1000);

    state.seek(5000);
    assert_eq!(state.current_time, 5000);
}

#[test]
fn test_web_player() {
    let mut player = WebPlayer::new(WebPlayerConfig::default());
    let mut sg = SceneGraph::new();
    sg.add_actor(Actor::new("hero", SdfNode::sphere(1.0)));
    let mut dir = Director::new("Test");
    dir.add_cut(Cut::new("c1", 0, 10000));
    let meta = EpisodeMetadata::new("Web Test", 1, 10000);
    let episode = EpisodePackage::new(meta, sg, dir, AnimeShading::default());

    player.load_episode(episode);
    player.state.toggle_play();
    player.update(1000);
    assert_eq!(player.state.current_time, 1000);
}

#[test]
fn test_cache_hit_miss() {
    let mut cache = AnimationCache::new(10);
    let mut dir = Director::new("Test");
    dir.add_cut(Cut::new("c1", 0, 5000));
    let sg = SceneGraph::new();

    let _s1 = cache.get_or_evaluate(0, 0, &dir, &sg);
    assert_eq!(cache.hit_rate(), 0);

    let _s2 = cache.get_or_evaluate(0, 0, &dir, &sg);
    assert_eq!(cache.hit_rate(), 500);
}

#[test]
fn test_cache_eviction() {
    let mut cache = AnimationCache::new(2);
    let mut dir = Director::new("Test");
    dir.add_cut(Cut::new("c1", 0, 5000));
    let sg = SceneGraph::new();

    cache.get_or_evaluate(0, 0, &dir, &sg);
    cache.get_or_evaluate(1, 1000, &dir, &sg);
    cache.get_or_evaluate(2, 2000, &dir, &sg);
    assert_eq!(cache.len(), 2);
}

#[test]
fn test_cache_clear() {
    let mut cache = AnimationCache::new(10);
    let mut dir = Director::new("Test");
    dir.add_cut(Cut::new("c1", 0, 5000));
    let sg = SceneGraph::new();

    cache.get_or_evaluate(0, 0, &dir, &sg);
    cache.clear();
    assert_eq!(cache.hit_rate(), 0);
    assert_eq!(cache.len(), 0);
}

#[test]
fn test_episode_to_cdn_descriptor() {
    let mut sg = SceneGraph::new();
    sg.add_actor(Actor::new("hero", SdfNode::sphere(1.0)));
    let mut dir = Director::new("Test");
    dir.add_cut(Cut::new("c1", 0, 120000));
    let meta = EpisodeMetadata::new("CDN Test", 1, 120000);
    let episode = EpisodePackage::new(meta, sg, dir, AnimeShading::default());

    let descriptor = episode_to_cdn_descriptor(&episode, CdnCacheHint::Hot);
    assert_eq!(descriptor.metadata.episode_number, 1);
    assert!(descriptor.size_bytes > 0);
    assert_eq!(descriptor.content_id, "anim-ep0001-CDN Test");
}

#[test]
fn test_bandwidth_savings() {
    let size_bytes = 50000;
    let duration = 120000;
    let ratio = bandwidth_savings_ratio(size_bytes, duration);
    assert!(ratio > 1000);
}

#[test]
fn test_compress_decompress_roundtrip() {
    let mut sg = SceneGraph::new();
    sg.add_actor(Actor::new("test", SdfNode::sphere(1.0)));
    let mut dir = Director::new("Test");
    dir.add_cut(Cut::new("c1", 0, 5000));
    let meta = EpisodeMetadata::new("Test Episode", 1, 5000);
    let episode = EpisodePackage::new(meta, sg, dir, AnimeShading::default());

    let compressed = compress_episode(&episode).unwrap();
    assert!(compressed.original_size > 0);
    assert!(compressed.compression_ratio > 0);

    let restored = decompress_episode(&compressed).unwrap();
    assert_eq!(restored.metadata.title, "Test Episode");
}

#[test]
fn test_episode_record_from_package() {
    let mut sg = SceneGraph::new();
    sg.add_actor(Actor::new("hero", SdfNode::sphere(1.0)));
    let mut dir = Director::new("Test");
    dir.add_cut(Cut::new("c1", 0, 120000));
    let meta = EpisodeMetadata::new("DB Test", 5, 120000);
    let episode = EpisodePackage::new(meta, sg, dir, AnimeShading::default());

    let record = EpisodeRecord::from_package(&episode);
    assert_eq!(record.episode_number, 5);
    assert_eq!(record.duration_ms, 120000);
    assert_eq!(record.actor_count, 1);
    assert_eq!(record.cut_count, 1);
    assert_eq!(record.id, "ep-0005-DB Test");
}

#[test]
fn test_query_matches() {
    let record = EpisodeRecord {
        id: "ep-0005-Test".into(),
        title: "Test Episode".into(),
        episode_number: 5,
        duration_ms: 120000,
        size_bytes: 50000,
        actor_count: 2,
        cut_count: 3,
        created_at: 0,
    };

    let query = EpisodeQuery::new().with_title("Test");
    assert!(query.matches(&record));

    let query = EpisodeQuery::new().with_duration_range(100000, 150000);
    assert!(query.matches(&record));

    let query = EpisodeQuery::new().with_episode_range(1, 10);
    assert!(query.matches(&record));

    let query = EpisodeQuery::new().with_title("NotFound");
    assert!(!query.matches(&record));
}

#[test]
fn test_generate_inbetweens_linear() {
    let start = ActorTransform {
        position: Vec3Milli::new(0, 0, 0),
        rotation: QuatMilli::identity(),
        scale: Vec3Milli::one(),
    };
    let end = ActorTransform {
        position: Vec3Milli::new(10000, 0, 0),
        rotation: QuatMilli::identity(),
        scale: Vec3Milli::one(),
    };
    let request = InbetweenRequest {
        start_transform: start,
        end_transform: end,
        num_frames: 3,
        easing: EasingHint::Linear,
    };

    let result = generate_inbetweens(&request);
    assert_eq!(result.frames.len(), 3);
    assert!(result.confidence > 0);

    let mid = &result.frames[1];
    assert_eq!(mid.position.x, 5000);
}

#[test]
fn test_easing_functions() {
    assert_eq!(apply_easing(0, EasingHint::Linear), 0);
    assert_eq!(apply_easing(1000, EasingHint::Linear), 1000);

    let snap = apply_easing(500, EasingHint::AnimeSnap);
    assert!(snap > 500);

    let overshoot = apply_easing(1000, EasingHint::Overshoot);
    assert!(overshoot > 950);
}

#[test]
fn test_suggest_camera() {
    let mut sg = SceneGraph::new();
    sg.add_actor(Actor::new("a", SdfNode::sphere(1.0)).with_transform(ActorTransform {
        position: Vec3Milli::new(5000, 0, 0),
        rotation: QuatMilli::identity(),
        scale: Vec3Milli::one(),
    }));
    sg.add_actor(Actor::new("b", SdfNode::sphere(1.0)).with_transform(ActorTransform {
        position: Vec3Milli::new(-5000, 0, 0),
        rotation: QuatMilli::identity(),
        scale: Vec3Milli::one(),
    }));

    let suggestion = suggest_camera(&sg);
    assert!(suggestion.confidence > 500);
    assert!(suggestion.target.x.abs() < 1000);
}

#[test]
fn test_suggest_camera_empty_scene() {
    let sg = SceneGraph::new();
    let suggestion = suggest_camera(&sg);
    assert_eq!(suggestion.rationale, "Default: no actors in scene");
}
