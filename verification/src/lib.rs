//! Core of an animation-description engine: a timed composition (an
//! "episode") of actors, camera work and cut sequencing, evaluated
//! deterministically at arbitrary time values and serialized to a compact,
//! integrity-checked binary container.
//!
//! All scalar quantities (times, positions, angles, factors) are carried as
//! fixed-point integers in milli-units: the value `1500` stands for `1.5`
//! seconds, world units, or radians, depending on the channel. This keeps
//! every evaluation path exact and deterministic, so repeated calls with the
//! same time yield bit-identical results.

pub mod camera;
pub mod director;
pub mod codec;
pub mod episode;
pub mod container;
pub mod cdn_bridge;
pub mod db_bridge;
pub mod browser_bridge;
pub mod cache_bridge;
pub mod codec_bridge;
pub mod fixed;
pub mod ml_bridge;
pub mod lip_sync;
pub mod npr;
pub mod scene;
pub mod shape;
pub mod strings;
pub mod track;
pub mod transform;

pub use camera::{CameraState, CameraTrack, CameraWork, DistortionType, FakePerspective};
pub use director::{Cut, CutId, Director, DirectorState};
pub use episode::{EpisodeMetadata, EpisodePackage};
pub use fixed::SCALE;
pub use npr::{AnimeShading, CelShading, OutlineConfig};
pub use scene::{Actor, ActorId, SceneGraph};
pub use transform::{ActorTransform, QuatMilli, Vec3Milli};
