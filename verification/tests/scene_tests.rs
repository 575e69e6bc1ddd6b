//! Scene graph storage, hierarchy and shape composition.

use alice_animation::scene::{compose_shapes, Actor, SceneGraph};
use alice_animation::transform::{ActorTransform, Vec3Milli};
use alice_sdf::types::SdfNode;

#[test]
fn test_add_and_find_actor() {
    let mut sg = SceneGraph::new();
    let id = sg.add_actor(Actor::new("hero", SdfNode::sphere(1.0)));
    assert_eq!(sg.find_by_name("hero"), Some(id));
    assert_eq!(sg.actor_count(), 1);
}

#[test]
fn test_parent_child_transform() {
    let mut sg = SceneGraph::new();
    let parent_id = sg.add_actor(Actor::new("parent", SdfNode::sphere(1.0)).with_transform(
        ActorTransform { position: Vec3Milli::new(10000, 0, 0), ..Default::default() },
    ));
    let child_id = sg.add_actor(
        Actor::new("child", SdfNode::sphere(0.5)).with_parent(parent_id).with_transform(
            ActorTransform { position: Vec3Milli::new(0, 5000, 0), ..Default::default() },
        ),
    );
    let world = sg.get_world_transform(child_id);
    assert_eq!(world.position, Vec3Milli::new(10000, 5000, 0));
}

#[test]
fn test_evaluate_scene() {
    let mut sg = SceneGraph::new();
    sg.add_actor(Actor::new("a", SdfNode::sphere(1.0)));
    sg.add_actor(Actor::new("b", SdfNode::sphere(2.0)));
    let sdf = sg.evaluate_scene(0);
    match &sdf {
        SdfNode::Union { a, b } => {
            assert!(matches!(a.as_ref(), SdfNode::Sphere { .. }));
            assert!(matches!(b.as_ref(), SdfNode::Sphere { .. }));
        },
        _ => panic!("Expected Union"),
    }
}

#[test]
fn test_evaluate_scene_empty_gives_fallback_sphere() {
    let sg = SceneGraph::new();
    let sdf = sg.evaluate_scene(0);
    match sdf {
        SdfNode::Sphere { radius } => assert_eq!(radius, 1.0),
        _ => panic!("Expected the fallback unit sphere"),
    }
}

#[test]
fn test_evaluate_scene_single_actor_no_union() {
    let mut sg = SceneGraph::new();
    sg.add_actor(Actor::new("solo", SdfNode::box3d(1.0, 1.0, 1.0)));
    let sdf = sg.evaluate_scene(0);
    assert!(matches!(sdf, SdfNode::Box3d { .. }));
}

#[test]
fn test_evaluate_scene_three_actors_left_fold() {
    let mut sg = SceneGraph::new();
    sg.add_actor(Actor::new("a", SdfNode::sphere(1.0)));
    sg.add_actor(Actor::new("b", SdfNode::sphere(2.0)));
    sg.add_actor(Actor::new("c", SdfNode::box3d(1.0, 1.0, 1.0)));
    // Three actors fold into two unions, left to right in slot order.
    match &sg.evaluate_scene(0) {
        SdfNode::Union { a, b } => {
            assert!(matches!(a.as_ref(), SdfNode::Union { .. }));
            assert!(matches!(b.as_ref(), SdfNode::Box3d { .. }));
        },
        _ => panic!("Expected Union"),
    }
}

#[test]
fn test_invisible_actor_is_skipped() {
    let mut sg = SceneGraph::new();
    sg.add_actor(Actor::new("hidden", SdfNode::sphere(1.0)).with_visible(false));
    sg.add_actor(Actor::new("shown", SdfNode::box3d(1.0, 1.0, 1.0)));
    assert!(matches!(sg.evaluate_scene(0), SdfNode::Box3d { .. }));
    let (sum, count) = sg.actor_positions_sum();
    assert_eq!(count, 1);
    assert_eq!(sum, Vec3Milli::new(0, 0, 0));
}

#[test]
fn test_cycle_is_reported_as_structural_error() {
    let mut sg = SceneGraph::new();
    let a = sg.add_actor(Actor::new("a", SdfNode::sphere(1.0)));
    let b = sg.add_actor(Actor::new("b", SdfNode::sphere(1.0)).with_parent(a));
    assert!(sg.resolve_world_transform(b).is_some());
    // Re-pointing the root at its own child closes a cycle: resolution
    // reports it, and the total variant falls back to the identity.
    let looped = Actor::new("a", SdfNode::sphere(1.0)).with_parent(b);
    assert!(sg.set_actor(a, looped));
    assert!(sg.resolve_world_transform(a).is_none());
    assert!(sg.resolve_world_transform(b).is_none());
    assert_eq!(sg.get_world_transform(b), ActorTransform::default());
}

#[test]
fn test_compose_shapes_matches_scene_composition() {
    let none: Vec<SdfNode> = vec![];
    match compose_shapes(&none) {
        SdfNode::Sphere { radius } => assert_eq!(radius, 1.0),
        _ => panic!("Expected the fallback unit sphere"),
    }
    let one = vec![SdfNode::box3d(1.0, 1.0, 1.0)];
    assert!(matches!(compose_shapes(&one), SdfNode::Box3d { .. }));
    let three = vec![SdfNode::sphere(1.0), SdfNode::sphere(2.0), SdfNode::box3d(1.0, 1.0, 1.0)];
    match &compose_shapes(&three) {
        SdfNode::Union { a, b } => {
            assert!(matches!(a.as_ref(), SdfNode::Union { .. }));
            assert!(matches!(b.as_ref(), SdfNode::Box3d { .. }));
        },
        _ => panic!("Expected Union"),
    }
}

#[test]
fn test_handles_are_monotonic_and_stable() {
    let mut sg = SceneGraph::new();
    let a = sg.add_actor(Actor::new("a", SdfNode::sphere(1.0)));
    let b = sg.add_actor(Actor::new("b", SdfNode::sphere(1.0)));
    assert_eq!(a.0 + 1, b.0);
    assert_eq!(sg.actor_ids().len(), 2);
    assert!(sg.get_actor(a).is_some());
    assert!(sg.get_actor(alice_animation::ActorId(99)).is_none());
}
