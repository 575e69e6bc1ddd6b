//! Phoneme values, formant classification and timeline conversion.

use alice_animation::lip_sync::{
    classify_phoneme, sync_voice_to_animation, LipSyncTrack, Phoneme,
};

#[test]
fn test_phoneme_values() {
    assert_eq!(Phoneme::Closed.openness(), 0);
    assert_eq!(Phoneme::A.openness(), 1000);
    assert!(Phoneme::I.width() > Phoneme::U.width());
}

#[test]
fn test_classify_phoneme() {
    assert_eq!(classify_phoneme(750, 1300), Phoneme::A);
    assert_eq!(classify_phoneme(300, 2400), Phoneme::I);
    assert_eq!(classify_phoneme(350, 1100), Phoneme::U);
    assert_eq!(classify_phoneme(500, 1900), Phoneme::E);
    assert_eq!(classify_phoneme(500, 900), Phoneme::O);
}

#[test]
fn test_lip_sync_track_to_timeline() {
    let mut track = LipSyncTrack::new("test");
    track.add_phoneme(0, Phoneme::A);
    track.add_phoneme(500, Phoneme::I);
    track.add_phoneme(1000, Phoneme::Closed);

    let tl = track.to_timeline();
    assert_eq!(tl.tracks.len(), 2);

    let openness = tl.get_value("mouth.openness", 0).unwrap();
    assert_eq!(openness, 1000);
}

#[test]
fn test_sync_voice_emits_keyframes_on_changes() {
    // Two vowel frames, then silence: one keyframe per phoneme change and a
    // closing keyframe at the end.
    let frames: Vec<Vec<i64>> = vec![
        vec![750, 1300],
        vec![750, 1300],
        vec![300, 2400],
        vec![50, 50],
    ];
    let track = sync_voice_to_animation(&frames, 100);
    assert_eq!(track.name, "lip_sync");
    assert_eq!(track.phonemes.len(), 3);
    assert_eq!(track.phonemes[0].time, 0);
    assert_eq!(track.phonemes[0].phoneme, Phoneme::A);
    assert_eq!(track.phonemes[1].time, 200);
    assert_eq!(track.phonemes[1].phoneme, Phoneme::I);
    assert_eq!(track.phonemes[2].time, 300);
    assert_eq!(track.phonemes[2].phoneme, Phoneme::Closed);
    assert_eq!(track.duration(), 300);
}

#[test]
fn test_sync_voice_short_frames_are_closed() {
    let frames: Vec<Vec<i64>> = vec![vec![750]];
    let track = sync_voice_to_animation(&frames, 100);
    assert_eq!(track.phonemes.len(), 0);
}
