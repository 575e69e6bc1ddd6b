//! Playback state for an embedded episode player: configuration, transport
//! state, and per-frame director evaluation.

use vstd::prelude::*;

use crate::director::DirectorState;
use crate::episode::EpisodePackage;
use crate::fixed::{sat64, sat_add};

verus! {

/// Render quality presets for different bandwidth and device classes.
#[derive(Debug, Clone, Copy, PartialEq, Eq, Structural)]
pub enum RenderQuality {
    /// Quarter-resolution evaluation for slow devices.
    Low,
    /// Half resolution.
    Medium,
    /// Full resolution.
    High,
    /// Double resolution for dense displays.
    Ultra,
}

/// The resolution scale factor of a quality preset, in milli-units.
pub open spec fn spec_scale_factor(q: RenderQuality) -> int {
    match q {
        RenderQuality::Low => 250,
        RenderQuality::Medium => 500,
        RenderQuality::High => 1000,
        RenderQuality::Ultra => 2000,
    }
}

impl RenderQuality {
    /// Resolution scale factor (a quarter unit up to two units).
    pub fn scale_factor(self) -> (r: i64)
        ensures
            r == spec_scale_factor(self),
    {
        match self {
            RenderQuality::Low => 250,
            RenderQuality::Medium => 500,
            RenderQuality::High => 1000,
            RenderQuality::Ultra => 2000,
        }
    }
}

/// Player configuration.
#[derive(Debug, Clone)]
pub struct WebPlayerConfig {
    pub canvas_width: u32,
    pub canvas_height: u32,
    /// Target frame rate in milli-frames per second.
    pub target_fps: i64,
    pub quality: RenderQuality,
    pub autoplay: bool,
}

impl Default for WebPlayerConfig {
    /// Full-HD canvas at twenty-four frames per second, high quality, no
    /// autoplay.
    fn default() -> (r: WebPlayerConfig)
        ensures
            r.canvas_width == 1920,
            r.canvas_height == 1080,
            r.target_fps == 24000,
            r.quality == RenderQuality::High,
            !r.autoplay,
    {
        WebPlayerConfig {
            canvas_width: 1920,
            canvas_height: 1080,
            target_fps: 24000,
            quality: RenderQuality::High,
            autoplay: false,
        }
    }
}

/// Transport state of a running episode.
#[derive(Debug, Clone)]
pub struct PlayerState {
    pub current_time: i64,
    pub playing: bool,
    pub buffered_frames: usize,
    pub director_state: Option<DirectorState>,
}

impl PlayerState {
    /// A paused player at time zero.
    pub fn new() -> (r: PlayerState)
        ensures
            r.current_time == 0,
            !r.playing,
            r.buffered_frames == 0,
            r.director_state is None,
    {
        PlayerState { current_time: 0, playing: false, buffered_frames: 0, director_state: None }
    }

    /// Advance time while playing; paused players hold their time.
    pub fn advance(&mut self, delta_ms: i64)
        ensures
            old(self).playing ==> final(self).current_time == sat64(
                old(self).current_time + delta_ms,
            ),
            !old(self).playing ==> final(self).current_time == old(self).current_time,
            final(self).playing == old(self).playing,
            final(self).buffered_frames == old(self).buffered_frames,
            final(self).director_state == old(self).director_state,
    {
        if self.playing {
            self.current_time = sat_add(self.current_time, delta_ms);
        }
    }

    /// Toggle play and pause.
    pub fn toggle_play(&mut self)
        ensures
            final(self).playing == !old(self).playing,
            final(self).current_time == old(self).current_time,
            final(self).buffered_frames == old(self).buffered_frames,
            final(self).director_state == old(self).director_state,
    {
        self.playing = !self.playing;
    }

    /// Seek to a time, clamped to be non-negative.
    pub fn seek(&mut self, time: i64)
        ensures
            final(self).current_time == if time >= 0 {
                time as int
            } else {
                0
            },
            final(self).playing == old(self).playing,
            final(self).buffered_frames == old(self).buffered_frames,
            final(self).director_state == old(self).director_state,
    {
        self.current_time = if time >= 0 {
            time
        } else {
            0
        };
    }
}

impl Default for PlayerState {
    /// Same as [`PlayerState::new`].
    fn default() -> (r: PlayerState)
        ensures
            r.current_time == 0,
            !r.playing,
            r.buffered_frames == 0,
            r.director_state is None,
    {
        PlayerState::new()
    }
}

/// A player holding an optional loaded episode.
#[derive(Debug, Clone)]
pub struct WebPlayer {
    pub config: WebPlayerConfig,
    pub state: PlayerState,
    pub episode: Option<EpisodePackage>,
}

impl WebPlayer {
    /// Any loaded episode is well-formed.
    pub open spec fn wf(&self) -> bool {
        match self.episode {
            Some(e) => e.wf(),
            None => true,
        }
    }

    /// A player with no loaded episode.
    pub fn new(config: WebPlayerConfig) -> (r: WebPlayer)
        ensures
            r.wf(),
            r.config == config,
            r.state.current_time == 0,
            !r.state.playing,
            r.episode is None,
    {
        WebPlayer { config, state: PlayerState::new(), episode: None }
    }

    /// Load an episode, rewinding to time zero; playback starts when the
    /// configuration says to autoplay.
    pub fn load_episode(&mut self, episode: EpisodePackage)
        requires
            episode.wf(),
        ensures
            final(self).wf(),
            final(self).episode == Some(episode),
            final(self).state.current_time == 0,
            final(self).state.playing == final(self).config.autoplay,
            final(self).config == old(self).config,
    {
        self.episode = Some(episode);
        self.state.current_time = 0;
        self.state.playing = self.config.autoplay;
    }

    /// Advance playback and evaluate the director at the new time: with an
    /// episode loaded, the stored director state is exactly the director's
    /// evaluation at the advanced time.
    pub fn update(&mut self, delta_ms: i64)
        requires
            old(self).wf(),
        ensures
            final(self).wf(),
            ({
                let t = if old(self).state.playing {
                    sat64(old(self).state.current_time + delta_ms)
                } else {
                    old(self).state.current_time as int
                };
                &&& final(self).state.current_time == t
                &&& (old(self).episode matches Some(e) ==> final(self).state.director_state
                    == Some(crate::director::spec_director_state(e.director, t as i64)))
            }),
            old(self).episode is None ==> final(self).state.director_state == old(
                self,
            ).state.director_state,
            final(self).episode == old(self).episode,
            final(self).config == old(self).config,
    {
        self.state.advance(delta_ms);
        match &self.episode {
            Some(episode) => {
                let state = episode.director.evaluate(&episode.scene_graph,
                    self.state.current_time);
                self.state.director_state = Some(state);
            },
            None => {},
        }
    }
}

} // verus!
