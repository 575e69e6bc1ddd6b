//! Camera track evaluation, presets and fake perspective parameters.

use alice_animation::camera::{
    CameraState, CameraTrack, CameraWork, DistortionParams, DistortionType, FakePerspective,
};
use alice_animation::transform::Vec3Milli;

#[test]
fn test_camera_default() {
    let state = CameraState::default();
    assert_eq!(state.position, Vec3Milli::new(0, 0, 5000));
    assert_eq!(state.target, Vec3Milli::new(0, 0, 0));
}

#[test]
fn test_camera_track_evaluate() {
    let mut track = CameraTrack::default();
    track.add_keyframe(0, Vec3Milli::new(0, 0, 10000), Vec3Milli::new(0, 0, 0), 785);
    track.add_keyframe(5000, Vec3Milli::new(10000, 0, 10000), Vec3Milli::new(0, 0, 0), 785);
    let mid = track.evaluate(2500);
    assert_eq!(mid.position.x, 5000);
}

#[test]
fn test_camera_work_preset() {
    let mut track = CameraTrack::default();
    track.apply_preset(CameraWork::Pan { speed: 2000 }, 0, 5000);
    let state = track.evaluate(5000);
    assert!(state.position.x > 0);
}

#[test]
fn test_pan_moves_by_speed_times_duration() {
    let mut track = CameraTrack::default();
    let before = track.evaluate(0);
    track.apply_preset(CameraWork::Pan { speed: 2000 }, 0, 5000);
    let after = track.evaluate(5000);
    // The horizontal position moved by exactly speed * duration.
    assert_eq!(after.position.x, before.position.x + 10000);
    assert_eq!(after.target.x, before.target.x + 10000);
}

#[test]
fn test_orbit_keeps_height() {
    let mut track = CameraTrack::default();
    track.add_keyframe(0, Vec3Milli::new(0, 3000, 5000), Vec3Milli::new(0, 0, 0), 785);
    track.apply_preset(CameraWork::Orbit { radius: 4000, speed: 1000 }, 0, 8000);
    for i in 0..=8i64 {
        let t = i * 1000;
        let state = track.evaluate(t);
        assert_eq!(state.position.y, 3000);
    }
}

#[test]
fn test_zoom_changes_fov_only() {
    let mut track = CameraTrack::default();
    track.apply_preset(CameraWork::Zoom { target_fov: 500 }, 0, 2000);
    let end = track.evaluate(2000);
    assert_eq!(end.fov, 500);
    assert_eq!(end.position, CameraState::default().position);
}

#[test]
fn test_shake_sets_scalars_and_is_deterministic() {
    let mut track = CameraTrack::default();
    track.apply_preset(CameraWork::Shake { amplitude: 200, frequency: 1000 }, 0, 0);
    assert_eq!(track.shake_amplitude, 200);
    assert_eq!(track.shake_frequency, 1000);
    let a = track.evaluate(1234);
    let b = track.evaluate(1234);
    assert_eq!(a, b);
    // Shake is skipped entirely when the amplitude is not positive.
    let mut still = CameraTrack::default();
    still.apply_preset(CameraWork::Shake { amplitude: 0, frequency: 1000 }, 0, 0);
    let s = still.evaluate(1234);
    assert_eq!(s.position.x, 0);
}

#[test]
fn test_tilt_moves_target_only() {
    let mut track = CameraTrack::default();
    let before = track.evaluate(0);
    track.apply_preset(CameraWork::Tilt { speed: 1000 }, 0, 4000);
    let after = track.evaluate(4000);
    assert_eq!(after.position, before.position);
    assert_eq!(after.target.y, before.target.y + 4000);
    assert_eq!(after.target.x, before.target.x);
    assert_eq!(after.fov, before.fov);
}

#[test]
fn test_dolly_moves_along_forward() {
    // Default state looks from (0,0,5) at the origin: forward is -Z.
    let mut track = CameraTrack::default();
    let before = track.evaluate(0);
    track.apply_preset(CameraWork::Dolly { speed: 1000 }, 0, 2000);
    let after = track.evaluate(2000);
    assert_eq!(after.target, before.target);
    assert_eq!(after.position.x, before.position.x);
    assert_eq!(after.position.y, before.position.y);
    // Two units forward along -Z: from 5000 down to 3000.
    assert_eq!(after.position.z, 3000);
}

#[test]
fn test_presets_preserve_start_state() {
    // The pre-call state at the preset's start is keyed first: evaluation
    // at the start time is unchanged by the preset.
    for work in [
        CameraWork::Pan { speed: 2000 },
        CameraWork::Tilt { speed: 1000 },
        CameraWork::Dolly { speed: 1000 },
        CameraWork::Zoom { target_fov: 500 },
    ] {
        let mut track = CameraTrack::default();
        track.add_keyframe(1000, Vec3Milli::new(1000, 2000, 3000), Vec3Milli::new(0, 0, 0), 900);
        let before = track.evaluate(500);
        track.apply_preset(work, 500, 5000);
        let after = track.evaluate(500);
        assert_eq!(after, before);
    }
}

#[test]
fn test_fake_perspective_projective() {
    let fp = FakePerspective::new("exaggerated", DistortionType::Projective, 1000);
    match fp.distortion_params() {
        DistortionParams::Projective { inv_matrix, lipschitz_bound } => {
            assert_eq!(inv_matrix.len(), 16);
            // The perspective cell carries a tenth of the strength.
            assert_eq!(inv_matrix[11], 100);
            assert_eq!(lipschitz_bound, 2000);
        },
        _ => panic!("Expected ProjectiveTransform"),
    }
}

#[test]
fn test_fake_perspective_lattice() {
    let fp = FakePerspective::new("kanada", DistortionType::Lattice, 500);
    match fp.distortion_params() {
        DistortionParams::Lattice { control_points, nx, ny, nz, bbox_min, bbox_max } => {
            assert_eq!(control_points.len(), 8);
            assert_eq!((nx, ny, nz), (2, 2, 2));
            // Far-plane corners are pushed out by the strength.
            assert_eq!(control_points[4], Vec3Milli::new(-1500, -1500, 1000));
            assert_eq!(control_points[7], Vec3Milli::new(1500, 1500, 1000));
            assert_eq!(bbox_min, Vec3Milli::new(-2000, -2000, -2000));
            assert_eq!(bbox_max, Vec3Milli::new(2000, 2000, 2000));
        },
        _ => panic!("Expected LatticeDeform"),
    }
}
