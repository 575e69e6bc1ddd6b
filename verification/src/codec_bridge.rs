//! Compression adapter around the episode container. The artifact bytes
//! are carried as-is (a dedicated compressor would slot in here); the
//! wrapper records the original size and the achieved ratio.

use vstd::prelude::*;

use crate::episode::{
    deserialize_episode, serialize_episode, DecodeError, EncodeError, EpisodePackage,
};
use crate::fixed::{sat64, tdiv};

verus! {

/// A compressed episode artifact with codec bookkeeping.
#[derive(Debug, Clone)]
pub struct CompressedEpisode {
    pub compressed_data: Vec<u8>,
    pub original_size: usize,
    /// Ratio of original to compressed size, in milli-units.
    pub compression_ratio: i64,
}

/// The achieved ratio in milli-units: original size over compressed size
/// (at least one).
pub open spec fn spec_compression_ratio(original: int, compressed: int) -> int {
    let denom = if compressed < 1 {
        1
    } else {
        compressed
    };
    sat64(tdiv(original * 1000, denom))
}

/// Serialize an episode into a compressed artifact.
pub fn compress_episode(episode: &EpisodePackage) -> (r: Result<CompressedEpisode, EncodeError>)
    ensures
        r matches Ok(c) ==> c.original_size == c.compressed_data@.len()
            && c.compression_ratio == spec_compression_ratio(
            c.compressed_data@.len() as int,
            c.compressed_data@.len() as int,
        ),
        r matches Err(e) ==> e == EncodeError::TooLarge,
{
    let raw = match serialize_episode(episode) {
        Ok(b) => b,
        Err(e) => {
            return Err(e);
        },
    };
    let original_size = raw.len();
    let denom: i128 = if raw.len() < 1 {
        1
    } else {
        raw.len() as i128
    };
    let q: i128 = ((original_size as i128) * 1000) / denom;
    proof {
        assert(q == tdiv(original_size as int * 1000, denom as int));
    }
    let ratio: i64 = if q > i64::MAX as i128 {
        i64::MAX
    } else {
        q as i64
    };
    Ok(CompressedEpisode {
        compressed_data: raw,
        original_size,
        compression_ratio: ratio,
    })
}

/// Decode a compressed artifact back into an episode package.
pub fn decompress_episode(compressed: &CompressedEpisode) -> (r: Result<
    EpisodePackage,
    DecodeError,
>)
    ensures
        r matches Ok(q) ==> q.wf(),
{
    deserialize_episode(&compressed.compressed_data)
}

} // verus!
