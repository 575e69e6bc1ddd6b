//! Episode distribution descriptors for edge caching.

use vstd::prelude::*;

use crate::episode::{EpisodeMetadata, EpisodePackage};
use crate::fixed::{sat64, tdiv, tdiv64};
use crate::strings::{spec_decimal_pad4, u32_decimal_pad4};

verus! {

/// Cache placement strategy for an episode.
#[derive(Debug, Clone, Copy, PartialEq, Eq, Structural)]
pub enum CdnCacheHint {
    /// Latest episode: cache at the edge, high priority.
    Hot,
    /// Back catalog: cache on demand.
    Warm,
    /// Rarely accessed: origin only.
    Cold,
}

/// A distribution descriptor for one episode.
#[derive(Debug, Clone)]
pub struct EpisodeCdnDescriptor {
    pub content_id: String,
    pub size_bytes: usize,
    pub cache_hint: CdnCacheHint,
    pub metadata: EpisodeMetadata,
}

/// The content identifier: `anim-ep`, the zero-padded number, `-`, and the
/// title.
pub open spec fn spec_content_id(episode_number: u32, title: Seq<char>) -> Seq<char> {
    "anim-ep"@ + spec_decimal_pad4(episode_number as int) + "-"@ + title
}

/// The estimated artifact size: about six bytes per second of runtime,
/// zero for non-positive durations.
pub open spec fn spec_cdn_size(duration_ms: int) -> int {
    if duration_ms <= 0 {
        0
    } else {
        let e = tdiv(duration_ms, 1000) * 6;
        if e > usize::MAX {
            usize::MAX as int
        } else {
            e
        }
    }
}

/// Build a distribution descriptor from an episode package.
pub fn episode_to_cdn_descriptor(episode: &EpisodePackage, hint: CdnCacheHint) -> (r:
    EpisodeCdnDescriptor)
    ensures
        r.content_id@ == spec_content_id(
            episode.metadata.episode_number,
            episode.metadata.title@,
        ),
        r.size_bytes == spec_cdn_size(episode.metadata.duration_ms as int),
        r.cache_hint == hint,
        r.metadata.title@ == episode.metadata.title@,
        r.metadata.episode_number == episode.metadata.episode_number,
        r.metadata.duration_ms == episode.metadata.duration_ms,
{
    proof {
        reveal_strlit("anim-ep");
        reveal_strlit("-");
    }
    let content_id = <String as vstd::string::StringExecFns>::from_str("anim-ep").concat(
        u32_decimal_pad4(episode.metadata.episode_number).as_str(),
    ).concat("-").concat(episode.metadata.title.as_str());
    let d = episode.metadata.duration_ms;
    let size_bytes: usize = if d <= 0 {
        0
    } else {
        let secs = tdiv64(d, 1000);
        proof {
            assert(0 <= tdiv(d as int, 1000) <= d) by (nonlinear_arith)
                requires
                    d > 0,
            ;
        }
        let e: i128 = (secs as i128) * 6;
        if e > usize::MAX as i128 {
            usize::MAX
        } else {
            e as usize
        }
    };
    EpisodeCdnDescriptor {
        content_id,
        size_bytes,
        cache_hint: hint,
        metadata: crate::episode::EpisodeMetadata {
            title: episode.metadata.title.clone(),
            episode_number: episode.metadata.episode_number,
            duration_ms: episode.metadata.duration_ms,
            resolution: episode.metadata.resolution,
        },
    }
}

/// The ratio of a traditional video stream's size (about two megabytes per
/// second) to the episode's size, in milli-units.
pub open spec fn spec_savings_ratio(size_bytes: int, duration_ms: int) -> int {
    let traditional = if duration_ms <= 0 {
        0
    } else {
        duration_ms * 2000
    };
    let denom = if size_bytes < 1 {
        1
    } else {
        size_bytes
    };
    sat64(tdiv(traditional * 1000, denom))
}

/// Estimate bandwidth savings against a traditional video stream.
pub fn bandwidth_savings_ratio(episode_size_bytes: usize, duration_ms: i64) -> (r: i64)
    ensures
        r == spec_savings_ratio(episode_size_bytes as int, duration_ms as int),
{
    let traditional: i128 = if duration_ms <= 0 {
        0
    } else {
        (duration_ms as i128) * 2000
    };
    let denom: i128 = if episode_size_bytes < 1 {
        1
    } else {
        episode_size_bytes as i128
    };
    let q: i128 = (traditional * 1000) / denom;
    proof {
        assert(q == tdiv(traditional as int * 1000, denom as int));
    }
    if q > i64::MAX as i128 {
        i64::MAX
    } else {
        q as i64
    }
}

} // verus!
