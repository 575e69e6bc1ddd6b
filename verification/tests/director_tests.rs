//! Cut sequencing and active-cut resolution.

use alice_animation::director::{Cut, Director};
use alice_animation::SceneGraph;

#[test]
fn test_cut_timing() {
    let cut = Cut::new("opening", 0, 5000);
    assert!(cut.contains_time(0));
    assert!(cut.contains_time(2500));
    assert!(!cut.contains_time(5000));
    assert_eq!(cut.duration(), 5000);
}

#[test]
fn test_director_add_and_find() {
    let mut dir = Director::new("Episode 1");
    let c1 = dir.add_cut(Cut::new("intro", 0, 3000));
    let c2 = dir.add_cut(Cut::new("battle", 3000, 8000));

    assert_eq!(dir.cut_count(), 2);
    assert_eq!(dir.find_active_cut(1000).map(|(id, _)| id), Some(c1));
    assert_eq!(dir.find_active_cut(5000).map(|(id, _)| id), Some(c2));
    assert!(dir.find_active_cut(10000).is_none());
    assert_eq!(dir.duration(), 8000);
}

#[test]
fn test_director_evaluate() {
    let mut dir = Director::new("Test");
    let _c1 = dir.add_cut(Cut::new("cut1", 0, 5000));
    let sg = SceneGraph::new();
    let state = dir.evaluate(&sg, 2000);
    assert!(state.active_cut.is_some());
    assert_eq!(state.time, 2000);
}

#[test]
fn test_disjoint_cuts_any_insertion_order() {
    // Two disjoint windows inserted in either order resolve identically.
    let mut a = Director::new("A");
    let a1 = a.add_cut(Cut::new("first", 0, 3000));
    let a2 = a.add_cut(Cut::new("second", 5000, 8000));

    let mut b = Director::new("B");
    let b2 = b.add_cut(Cut::new("second", 5000, 8000));
    let b1 = b.add_cut(Cut::new("first", 0, 3000));

    for t in [0i64, 1500, 2999, 3000, 4999, 5000, 6500, 7999, 8000, 9000] {
        let ra = a.find_active_cut(t).map(|(_, c)| c.name.clone());
        let rb = b.find_active_cut(t).map(|(_, c)| c.name.clone());
        assert_eq!(ra, rb);
    }
    assert_eq!(a.find_active_cut(1000).map(|(id, _)| id), Some(a1));
    assert_eq!(a.find_active_cut(6000).map(|(id, _)| id), Some(a2));
    assert_eq!(b.find_active_cut(1000).map(|(id, _)| id), Some(b1));
    assert_eq!(b.find_active_cut(6000).map(|(id, _)| id), Some(b2));
    assert!(a.find_active_cut(4000).is_none());
}

#[test]
fn test_contiguous_boundary_exactly_one_active() {
    // At a shared boundary the later cut is active, never two, never a gap.
    let mut dir = Director::new("boundaries");
    let c1 = dir.add_cut(Cut::new("one", 0, 3000));
    let c2 = dir.add_cut(Cut::new("two", 3000, 8000));
    assert_eq!(dir.find_active_cut(2999).map(|(id, _)| id), Some(c1));
    assert_eq!(dir.find_active_cut(3000).map(|(id, _)| id), Some(c2));
    assert_eq!(dir.find_active_cut(7999).map(|(id, _)| id), Some(c2));
    assert!(dir.find_active_cut(8000).is_none());
}

#[test]
fn test_degenerate_cut_never_matches() {
    let mut dir = Director::new("degenerate");
    let _ = dir.add_cut(Cut::new("empty", 2000, 2000));
    assert!(dir.find_active_cut(2000).is_none());
    assert!(dir.find_active_cut(1999).is_none());
    let cut = Cut::new("negative", 5000, 3000);
    assert_eq!(cut.rcp_duration(), 0);
    assert!(!cut.contains_time(4000));
}

#[test]
fn test_duration_is_plain_maximum() {
    // The authoritative length is the plain maximum end time: with a
    // single cut ending before time zero it is that negative end time.
    let mut dir = Director::new("early");
    dir.add_cut(Cut::new("before-zero", -10000, -5000));
    assert_eq!(dir.duration(), -5000);
    let mut mixed = Director::new("mixed");
    mixed.add_cut(Cut::new("before-zero", -10000, -5000));
    mixed.add_cut(Cut::new("after", 0, 3000));
    assert_eq!(mixed.duration(), 3000);
}

#[test]
fn test_empty_director() {
    let dir = Director::new("empty");
    assert_eq!(dir.cut_count(), 0);
    assert_eq!(dir.duration(), 0);
    assert!(dir.find_active_cut(0).is_none());
    let sg = SceneGraph::new();
    let state = dir.evaluate(&sg, 0);
    assert!(state.active_cut.is_none());
    assert_eq!(state.camera_state.position.z, 5000);
}
