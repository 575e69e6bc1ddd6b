//! Lip sync: vowel phonemes for mouth shapes, formant-based phoneme
//! classification, and conversion of a phoneme track into mouth-openness
//! and mouth-width keyframe channels.

use vstd::prelude::*;

use crate::fixed::{sat64, sat_mul_u64};
use crate::track::{Timeline, Track};

verus! {

/// Vowel phonemes for mouth shape.
#[derive(Debug, Clone, Copy, PartialEq, Eq, Structural)]
pub enum Phoneme {
    /// Mouth closed.
    Closed,
    /// Open wide.
    A,
    /// Wide and narrow.
    I,
    /// Small and round.
    U,
    /// Half open.
    E,
    /// Round and open.
    O,
}

/// Mouth openness per phoneme, in milli-units.
pub open spec fn spec_openness(p: Phoneme) -> int {
    match p {
        Phoneme::Closed => 0,
        Phoneme::A => 1000,
        Phoneme::I => 300,
        Phoneme::U => 400,
        Phoneme::E => 600,
        Phoneme::O => 700,
    }
}

/// Mouth width per phoneme, in milli-units.
pub open spec fn spec_width(p: Phoneme) -> int {
    match p {
        Phoneme::Closed => 300,
        Phoneme::A => 800,
        Phoneme::I => 1000,
        Phoneme::U => 200,
        Phoneme::E => 900,
        Phoneme::O => 500,
    }
}

impl Phoneme {
    /// Mouth openness (zero closed, one whole unit fully open).
    pub fn openness(&self) -> (r: i64)
        ensures
            r == spec_openness(*self),
    {
        match self {
            Phoneme::Closed => 0,
            Phoneme::A => 1000,
            Phoneme::I => 300,
            Phoneme::U => 400,
            Phoneme::E => 600,
            Phoneme::O => 700,
        }
    }

    /// Mouth width (zero narrow, one whole unit wide).
    pub fn width(&self) -> (r: i64)
        ensures
            r == spec_width(*self),
    {
        match self {
            Phoneme::Closed => 300,
            Phoneme::A => 800,
            Phoneme::I => 1000,
            Phoneme::U => 200,
            Phoneme::E => 900,
            Phoneme::O => 500,
        }
    }
}

/// Classification of a vowel from the first two formant frequencies (whole
/// hertz), following the vowel formant chart rules in order.
pub open spec fn spec_classify(f1: int, f2: int) -> Phoneme {
    if f1 < 400 && f2 > 2000 {
        Phoneme::I
    } else if f1 < 450 && f2 < 1300 {
        Phoneme::U
    } else if f1 > 600 && f2 > 1000 && f2 < 1600 {
        Phoneme::A
    } else if f1 > 400 && f2 > 1600 {
        Phoneme::E
    } else if f1 > 400 && f2 < 1100 {
        Phoneme::O
    } else {
        Phoneme::A
    }
}

/// Classify a vowel phoneme from formant frequencies `(f1, f2)` in whole
/// hertz: low first formants with high second formants read as narrow
/// vowels, high first formants as open ones; the open vowel is the default.
pub fn classify_phoneme(f1: i64, f2: i64) -> (r: Phoneme)
    ensures
        r == spec_classify(f1 as int, f2 as int),
{
    if f1 < 400 && f2 > 2000 {
        Phoneme::I
    } else if f1 < 450 && f2 < 1300 {
        Phoneme::U
    } else if f1 > 600 && f2 > 1000 && f2 < 1600 {
        Phoneme::A
    } else if f1 > 400 && f2 > 1600 {
        Phoneme::E
    } else if f1 > 400 && f2 < 1100 {
        Phoneme::O
    } else {
        Phoneme::A
    }
}

/// A phoneme at a time.
#[derive(Debug, Clone, Copy, PartialEq, Eq, Structural)]
pub struct PhonemeKeyframe {
    pub time: i64,
    pub phoneme: Phoneme,
}

/// A lip sync track: phoneme keyframes kept sorted by time.
#[derive(Debug, Clone)]
pub struct LipSyncTrack {
    pub name: String,
    pub phonemes: Vec<PhonemeKeyframe>,
}

/// Non-strictly sorted by time.
pub open spec fn spec_phonemes_sorted(s: Seq<PhonemeKeyframe>) -> bool {
    forall|i: int, j: int| 0 <= i < j < s.len() ==> s[i].time <= s[j].time
}

impl LipSyncTrack {
    /// The phoneme list is sorted by time.
    pub open spec fn wf(&self) -> bool {
        spec_phonemes_sorted(self.phonemes@)
    }

    /// An empty named track.
    pub fn new(name: &str) -> (r: LipSyncTrack)
        ensures
            r.wf(),
            r.name@ == name@,
            r.phonemes@.len() == 0,
    {
        LipSyncTrack {
            name: <String as vstd::string::StringExecFns>::from_str(name),
            phonemes: Vec::new(),
        }
    }

    /// Insert a phoneme at a time, keeping the list sorted; an equal time
    /// inserts after the existing entries (insertion order is kept).
    pub fn add_phoneme(&mut self, time: i64, phoneme: Phoneme)
        requires
            old(self).wf(),
        ensures
            final(self).wf(),
            final(self).name@ == old(self).name@,
            exists|p: int|
                0 <= p <= old(self).phonemes@.len() && final(self).phonemes@ == old(
                    self,
                ).phonemes@.insert(p, PhonemeKeyframe { time, phoneme }),
    {
        let k = PhonemeKeyframe { time, phoneme };
        let ghost s0 = self.phonemes@;
        let mut i: usize = 0;
        while i < self.phonemes.len() && self.phonemes[i].time <= time
            invariant
                self.phonemes@ == s0,
                i <= s0.len(),
                forall|j: int| 0 <= j < i ==> s0[j].time <= time,
            decreases s0.len() - i,
        {
            i = i + 1;
        }
        proof {
            if i < s0.len() {
                assert(s0[i as int].time > time);
            }
        }
        self.phonemes.insert(i, k);
        proof {
            let snew = self.phonemes@;
            let l = i as int;
            assert(snew == s0.insert(l, k));
            assert forall|p: int, q: int| 0 <= p < q < snew.len() implies snew[p].time
                <= snew[q].time by {
                if p < l && q < l {
                    assert(snew[p] == s0[p] && snew[q] == s0[q]);
                } else if p < l && q == l {
                    assert(snew[p] == s0[p]);
                } else if p < l && q > l {
                    assert(snew[p] == s0[p] && snew[q] == s0[q - 1]);
                    assert(s0[q - 1].time > time || q - 1 >= l);
                    if q - 1 == l {
                        assert(s0[q - 1].time > time);
                    } else {
                        assert(s0[l].time > time);
                        assert(s0[l].time <= s0[q - 1].time);
                    }
                } else if p == l {
                    assert(snew[q] == s0[q - 1]);
                    if q - 1 == l {
                        assert(s0[q - 1].time > time);
                    } else {
                        assert(s0[l].time > time);
                        assert(s0[l].time <= s0[q - 1].time);
                    }
                } else {
                    assert(snew[p] == s0[p - 1] && snew[q] == s0[q - 1]);
                }
            }
        }
    }

    /// Convert to a two-channel timeline: `mouth.openness` and
    /// `mouth.width`, one sample per phoneme keyframe (a later phoneme at
    /// an identical time replaces the earlier sample).
    #[verifier::rlimit(100)]
    pub fn to_timeline(&self) -> (r: Timeline)
        ensures
            r.wf(),
            r.name@ == self.name@,
            r.tracks@.len() == 2,
            r.tracks@[0].name@ == "mouth.openness"@,
            r.tracks@[1].name@ == "mouth.width"@,
            forall|i: int|
                0 <= i < self.phonemes@.len() && (forall|j: int|
                    0 <= j < self.phonemes@.len() && j != i ==> (#[trigger] self.phonemes@[j]).time
                        != self.phonemes@[i].time) ==> (#[trigger] self.phonemes@[i]).time
                    == self.phonemes@[i].time && r.tracks@[0].samples@.contains(
                    crate::track::Keyframe {
                        time: self.phonemes@[i].time,
                        value: spec_openness(self.phonemes@[i].phoneme) as i64,
                    },
                ) && r.tracks@[1].samples@.contains(
                    crate::track::Keyframe {
                        time: self.phonemes@[i].time,
                        value: spec_width(self.phonemes@[i].phoneme) as i64,
                    },
                ),
    {
        let mut openness_track = Track::new("mouth.openness");
        let mut width_track = Track::new("mouth.width");
        let mut i: usize = 0;
        while i < self.phonemes.len()
            invariant
                i <= self.phonemes@.len(),
                openness_track.wf(),
                width_track.wf(),
                openness_track.name@ == "mouth.openness"@,
                width_track.name@ == "mouth.width"@,
                forall|p: int|
                    0 <= p < i && (forall|j: int|
                        0 <= j < self.phonemes@.len() && j != p ==> (
                        #[trigger] self.phonemes@[j]).time != self.phonemes@[p].time)
                        ==> openness_track.samples@.contains(
                        crate::track::Keyframe {
                            time: (#[trigger] self.phonemes@[p]).time,
                            value: spec_openness(self.phonemes@[p].phoneme) as i64,
                        },
                    ) && width_track.samples@.contains(
                        crate::track::Keyframe {
                            time: self.phonemes@[p].time,
                            value: spec_width(self.phonemes@[p].phoneme) as i64,
                        },
                    ),
            decreases self.phonemes@.len() - i,
        {
            let kf = self.phonemes[i];
            openness_track.add_keyframe(kf.time, kf.phoneme.openness());
            width_track.add_keyframe(kf.time, kf.phoneme.width());
            i = i + 1;
        }
        let mut tl = Timeline::new(self.name.as_str());
        tl.add_track(openness_track);
        tl.add_track(width_track);
        tl
    }

    /// Time of the last phoneme, or zero for an empty track.
    pub fn duration(&self) -> (r: i64)
        ensures
            self.phonemes@.len() == 0 ==> r == 0,
            self.phonemes@.len() > 0 ==> r == self.phonemes@.last().time,
    {
        if self.phonemes.len() == 0 {
            0
        } else {
            self.phonemes[self.phonemes.len() - 1].time
        }
    }
}

/// The phoneme a voice frame maps to: closed for fewer than two formants or
/// near-silence, the classified vowel otherwise.
pub open spec fn spec_frame_phoneme(frame: Seq<i64>) -> Phoneme {
    if frame.len() < 2 {
        Phoneme::Closed
    } else if frame[0] < 100 && frame[1] < 100 {
        Phoneme::Closed
    } else {
        spec_classify(frame[0] as int, frame[1] as int)
    }
}

/// The keyframes that voice-to-animation synchronization emits from frame
/// `i` onward, with `prev` the phoneme of the previous keyframe: a keyframe
/// on every phoneme change, and a closing keyframe at the end when the
/// mouth was left open.
pub open spec fn spec_sync_from(
    frames: Seq<Seq<i64>>,
    frame_duration: i64,
    i: int,
    prev: Phoneme,
) -> Seq<PhonemeKeyframe>
    decreases frames.len() - i,
{
    if i < 0 || i >= frames.len() {
        if prev != Phoneme::Closed {
            seq![
                PhonemeKeyframe {
                    time: sat64(frames.len() * frame_duration) as i64,
                    phoneme: Phoneme::Closed,
                },
            ]
        } else {
            Seq::empty()
        }
    } else {
        let ph = spec_frame_phoneme(frames[i]);
        if ph != prev {
            seq![PhonemeKeyframe { time: sat64(i * frame_duration) as i64, phoneme: ph }]
                + spec_sync_from(frames, frame_duration, i + 1, ph)
        } else {
            spec_sync_from(frames, frame_duration, i + 1, prev)
        }
    }
}

/// Map voice frames (each a list of formant frequencies in whole hertz) to
/// a lip sync track: one keyframe per phoneme change at the frame's time,
/// and a closing keyframe at the end when the mouth was left open.
pub fn sync_voice_to_animation(voice_formants: &Vec<Vec<i64>>, frame_duration: i64) -> (r:
    LipSyncTrack)
    requires
        frame_duration >= 0,
    ensures
        r.wf(),
        r.name@ == "lip_sync"@,
        r.phonemes@ == spec_sync_from(
            voice_formants.deep_view(),
            frame_duration,
            0,
            Phoneme::Closed,
        ),
{
    let ghost frames = voice_formants.deep_view();
    let mut out: Vec<PhonemeKeyframe> = Vec::new();
    let mut prev = Phoneme::Closed;
    let mut i: usize = 0;
    while i < voice_formants.len()
        invariant
            frames == voice_formants.deep_view(),
            frame_duration >= 0,
            i <= frames.len(),
            out@ + spec_sync_from(frames, frame_duration, i as int, prev) == spec_sync_from(
                frames,
                frame_duration,
                0,
                Phoneme::Closed,
            ),
            spec_phonemes_sorted(out@),
            forall|j: int| 0 <= j < out@.len() ==> (#[trigger] out@[j]).time <= sat64(
                i * frame_duration,
            ),
        decreases frames.len() - i,
    {
        let frame = &voice_formants[i];
        proof {
            assert(frames[i as int] == frame.deep_view());
            assert(frame.deep_view().len() == frame@.len());
        }
        let phoneme = if frame.len() >= 2 {
            proof {
                assert(frame.deep_view()[0] == frame@[0]);
                assert(frame.deep_view()[1] == frame@[1]);
            }
            let f1 = frame[0];
            let f2 = frame[1];
            if f1 < 100 && f2 < 100 {
                Phoneme::Closed
            } else {
                classify_phoneme(f1, f2)
            }
        } else {
            Phoneme::Closed
        };
        proof {
            assert(phoneme == spec_frame_phoneme(frames[i as int]));
        }
        proof {
            assert((i as int + 1) * frame_duration >= (i as int) * frame_duration
                && (frames.len() as int) * frame_duration >= (i as int) * frame_duration)
                by (nonlinear_arith)
                requires
                    frame_duration >= 0,
                    0 <= i as int,
                    i as int <= frames.len() as int,
            ;
        }
        if !phoneme_eq(phoneme, prev) {
            let t = sat_mul_u64(i as u64, frame_duration);
            let ghost out_before = out@;
            let ghost prev_before = prev;
            out.push(PhonemeKeyframe { time: t, phoneme });
            prev = phoneme;
            proof {
                assert(out@ =~= out_before + seq![PhonemeKeyframe { time: t, phoneme }]);
                assert(out@ + spec_sync_from(frames, frame_duration, i + 1, phoneme)
                    =~= out_before + spec_sync_from(frames, frame_duration, i as int, prev_before));
            }
        }
        i = i + 1;
    }
    if !phoneme_eq(prev, Phoneme::Closed) {
        let end_time = sat_mul_u64(voice_formants.len() as u64, frame_duration);
        let ghost out_before = out@;
        out.push(PhonemeKeyframe { time: end_time, phoneme: Phoneme::Closed });
        proof {
            assert(out@ =~= out_before + seq![
                PhonemeKeyframe { time: end_time, phoneme: Phoneme::Closed },
            ]);
        }
    } else {
        proof {
            assert(out@ =~= out@ + Seq::<PhonemeKeyframe>::empty());
        }
    }
    LipSyncTrack {
        name: <String as vstd::string::StringExecFns>::from_str("lip_sync"),
        phonemes: out,
    }
}

/// Phoneme equality.
fn phoneme_eq(a: Phoneme, b: Phoneme) -> (r: bool)
    ensures
        r == (a == b),
{
    a == b
}

} // verus!
