//! Episode container: metadata, the full serializable package, and the
//! binary framing with versioning and integrity checking.
//!
//! Wire format (little-endian): a fixed 16-byte header — the magic bytes
//! `ANIM`, a format version, a flags word (written as zero), the body
//! length, and the CRC-32 of the body — followed by the encoded body. All
//! header validation happens before any attempt to interpret body content.

use vstd::prelude::*;

use crate::codec::{
    dec_i64, dec_string, dec_u32, dec_u64, enc_i64, enc_string, enc_u16, enc_u32, enc_u64,
    lemma_enc_string_prefix_unique, spec_enc_i64, spec_enc_string, spec_enc_u16, spec_enc_u32,
    spec_enc_u64,
};
use crate::director::{spec_max_end, Director};
use crate::npr::AnimeShading;
use crate::scene::{spec_count_present, SceneGraph};

verus! {

/// The supported format version.
pub const EPISODE_VERSION: u16 = 1;

/// The checksum of a byte sequence as `crc32fast` computes it: a pure
/// function of the bytes alone.
pub uninterp spec fn crc32_of(b: Seq<u8>) -> u32;

/// Relies on `crc32fast::hash`: the CRC-32 checksum of the bytes, a
/// function of the bytes alone.
#[verifier::external_body]
fn crc32(data: &Vec<u8>) -> (r: u32)
    ensures
        r == crc32_of(data@),
{
    crc32fast::hash(data.as_slice())
}

/// The four magic bytes `ANIM`.
pub open spec fn spec_magic() -> Seq<u8> {
    seq![0x41u8, 0x4eu8, 0x49u8, 0x4du8]
}

/// A complete framed artifact: header then body.
pub open spec fn spec_frame(body: Seq<u8>) -> Seq<u8> {
    spec_magic() + spec_enc_u16(EPISODE_VERSION as int) + spec_enc_u16(0) + spec_enc_u32(
        body.len() as int,
    ) + spec_enc_u32(crc32_of(body) as int) + body
}

/// Decode errors, one per validation step, in the order the steps run.
#[derive(Debug, Clone, Copy, PartialEq, Eq, Structural)]
pub enum DecodeError {
    /// Fewer bytes than the header, or than the recorded body length.
    Truncated,
    /// The artifact does not begin with the magic bytes.
    InvalidMagic,
    /// A version this implementation does not support.
    UnsupportedVersion { version: u16 },
    /// The body checksum does not match the recorded one.
    CrcMismatch { expected: u32, actual: u32 },
    /// The framed body does not decode to a package.
    InvalidBody,
}

/// Encode errors.
#[derive(Debug, Clone, Copy, PartialEq, Eq, Structural)]
pub enum EncodeError {
    /// The encoded body does not fit the 32-bit length field.
    TooLarge,
}

/// A 16-bit little-endian value read at a position.
pub open spec fn spec_u16_at(d: Seq<u8>, i: int) -> int {
    d[i] + 0x100 * d[i + 1]
}

/// A 32-bit little-endian value read at a position.
pub open spec fn spec_u32_at(d: Seq<u8>, i: int) -> int {
    d[i] + 0x100 * d[i + 1] + 0x10000 * d[i + 2] + 0x1000000 * d[i + 3]
}

/// The framing validation rule: reject short input, then a magic mismatch,
/// then an unsupported version, then a truncated body, then a checksum
/// mismatch; only then hand the body bytes on.
pub open spec fn spec_decode_frame(d: Seq<u8>) -> Result<Seq<u8>, DecodeError> {
    if d.len() < 16 {
        Err(DecodeError::Truncated)
    } else if d.subrange(0, 4) != spec_magic() {
        Err(DecodeError::InvalidMagic)
    } else if spec_u16_at(d, 4) != EPISODE_VERSION as int {
        Err(DecodeError::UnsupportedVersion { version: spec_u16_at(d, 4) as u16 })
    } else if d.len() < 16 + spec_u32_at(d, 8) {
        Err(DecodeError::Truncated)
    } else {
        let body = d.subrange(16, 16 + spec_u32_at(d, 8));
        let expected = spec_u32_at(d, 12) as u32;
        if crc32_of(body) != expected {
            Err(DecodeError::CrcMismatch { expected, actual: crc32_of(body) })
        } else {
            Ok(body)
        }
    }
}

/// Frame a body: emit the header (with the body's length and checksum),
/// then the body. Fails only when the body outgrows the length field.
pub fn encode_frame(body: &Vec<u8>) -> (r: Result<Vec<u8>, EncodeError>)
    ensures
        match r {
            Ok(framed) => body@.len() <= u32::MAX && framed@ == spec_frame(body@),
            Err(e) => e == EncodeError::TooLarge && body@.len() > u32::MAX,
        },
{
    if body.len() as u64 > u32::MAX as u64 {
        return Err(EncodeError::TooLarge);
    }
    let checksum = crc32(body);
    let mut out: Vec<u8> = Vec::new();
    out.push(0x41);
    out.push(0x4e);
    out.push(0x49);
    out.push(0x4d);
    proof {
        assert(out@ =~= spec_magic());
    }
    enc_u16(&mut out, EPISODE_VERSION);
    enc_u16(&mut out, 0);
    enc_u32(&mut out, body.len() as u32);
    enc_u32(&mut out, checksum);
    let ghost header = out@;
    let mut i: usize = 0;
    while i < body.len()
        invariant
            i <= body@.len(),
            out@ == header + body@.take(i as int),
        decreases body@.len() - i,
    {
        out.push(body[i]);
        proof {
            assert(body@.take(i + 1) =~= body@.take(i as int).push(body@[i as int]));
            assert(out@ =~= header + body@.take(i + 1));
        }
        i = i + 1;
    }
    proof {
        assert(body@.take(body@.len() as int) =~= body@);
        assert(out@ =~= spec_frame(body@));
    }
    Ok(out)
}

/// Unframe an artifact, validating magic, version, length and checksum in
/// that order; the returned bytes are exactly the recorded body.
pub fn decode_frame(data: &Vec<u8>) -> (r: Result<Vec<u8>, DecodeError>)
    ensures
        match r {
            Ok(body) => spec_decode_frame(data@) == Ok::<Seq<u8>, DecodeError>(body@),
            Err(e) => spec_decode_frame(data@) == Err::<Seq<u8>, DecodeError>(e),
        },
{
    if data.len() < 16 {
        return Err(DecodeError::Truncated);
    }
    if !(data[0] == 0x41 && data[1] == 0x4e && data[2] == 0x49 && data[3] == 0x4d) {
        proof {
            assert(data@.subrange(0, 4) != spec_magic()) by {
                if data@.subrange(0, 4) == spec_magic() {
                    assert(data@.subrange(0, 4)[0] == data@[0]);
                    assert(data@.subrange(0, 4)[1] == data@[1]);
                    assert(data@.subrange(0, 4)[2] == data@[2]);
                    assert(data@.subrange(0, 4)[3] == data@[3]);
                }
            }
        }
        return Err(DecodeError::InvalidMagic);
    }
    proof {
        assert(data@.subrange(0, 4) =~= spec_magic());
    }
    let version = data[4] as u16 + 0x100 * (data[5] as u16);
    if version != EPISODE_VERSION {
        return Err(DecodeError::UnsupportedVersion { version });
    }
    let size = data[8] as u32 + 0x100 * (data[9] as u32) + 0x10000 * (data[10] as u32)
        + 0x1000000 * (data[11] as u32);
    let expected = data[12] as u32 + 0x100 * (data[13] as u32) + 0x10000 * (data[14] as u32)
        + 0x1000000 * (data[15] as u32);
    let size_usize = size as usize;
    if data.len() - 16 < size_usize {
        return Err(DecodeError::Truncated);
    }
    let dlen = data.len();
    let mut body: Vec<u8> = Vec::new();
    let mut i: usize = 0;
    while i < size_usize
        invariant
            16 + size_usize <= dlen,
            dlen == data@.len(),
            i <= size_usize,
            body@ == data@.subrange(16, 16 + i),
        decreases size_usize - i,
    {
        body.push(data[16 + i]);
        proof {
            assert(data@.subrange(16, 16 + i + 1) =~= data@.subrange(16, 16 + i).push(
                data@[16 + i],
            ));
        }
        i = i + 1;
    }
    proof {
        assert(body@ =~= data@.subrange(16, 16 + spec_u32_at(data@, 8)));
    }
    let actual = crc32(&body);
    if actual != expected {
        return Err(DecodeError::CrcMismatch { expected, actual });
    }
    Ok(body)
}

/// Round-trip law of the framing: unframing a framed body yields exactly
/// that body, for every body that fits the length field.
#[verifier::rlimit(100)]
#[verifier::spinoff_prover]
pub proof fn lemma_frame_roundtrip(body: Seq<u8>)
    requires
        body.len() <= u32::MAX,
    ensures
        spec_decode_frame(spec_frame(body)) == Ok::<Seq<u8>, DecodeError>(body),
{
    let d = spec_frame(body);
    assert(d.len() == 16 + body.len());
    assert(d.subrange(0, 4) =~= spec_magic());
    assert(d[4] == spec_enc_u16(EPISODE_VERSION as int)[0] && d[5] == spec_enc_u16(
        EPISODE_VERSION as int,
    )[1]);
    assert(spec_u16_at(d, 4) == EPISODE_VERSION as int);
    assert(d[8] == spec_enc_u32(body.len() as int)[0] && d[9] == spec_enc_u32(
        body.len() as int,
    )[1] && d[10] == spec_enc_u32(body.len() as int)[2] && d[11] == spec_enc_u32(
        body.len() as int,
    )[3]);
    assert(spec_u32_at(d, 8) == body.len() as int) by {
        crate::codec::lemma_enc_u32_injective(
            spec_u32_at(d, 8),
            body.len() as int,
        );
        assert(spec_enc_u32(spec_u32_at(d, 8)) =~= spec_enc_u32(body.len() as int)) by {
            lemma_u32_at_enc(d, 8);
        }
    }
    assert(d.subrange(16, 16 + body.len() as int) =~= body);
    assert(d[12] == spec_enc_u32(crc32_of(body) as int)[0] && d[13] == spec_enc_u32(
        crc32_of(body) as int,
    )[1] && d[14] == spec_enc_u32(crc32_of(body) as int)[2] && d[15] == spec_enc_u32(
        crc32_of(body) as int,
    )[3]);
    assert(spec_u32_at(d, 12) == crc32_of(body) as int) by {
        crate::codec::lemma_enc_u32_injective(
            spec_u32_at(d, 12),
            crc32_of(body) as int,
        );
        assert(spec_enc_u32(spec_u32_at(d, 12)) =~= spec_enc_u32(crc32_of(body) as int)) by {
            lemma_u32_at_enc(d, 12);
        }
    }
}

/// Reading four bytes at a position yields a value whose encoding is those
/// bytes.
proof fn lemma_u32_at_enc(d: Seq<u8>, i: int)
    requires
        0 <= i,
        i + 4 <= d.len(),
    ensures
        spec_enc_u32(spec_u32_at(d, i)) =~= d.subrange(i, i + 4),
        0 <= spec_u32_at(d, i) < 0x100000000,
{
    let v = spec_u32_at(d, i);
    assert(v % 256 == d[i] && (v / 0x100) % 256 == d[i + 1] && (v / 0x10000) % 256 == d[i + 2]
        && (v / 0x1000000) % 256 == d[i + 3]) by (nonlinear_arith)
        requires
            v == d[i] + 0x100 * d[i + 1] + 0x10000 * d[i + 2] + 0x1000000 * d[i + 3],
            0 <= d[i] < 256,
            0 <= d[i + 1] < 256,
            0 <= d[i + 2] < 256,
            0 <= d[i + 3] < 256,
    ;
}

/// Corruption law of the framing: flip any single byte of a framed
/// artifact's body and unframing either reports a checksum mismatch or the
/// altered body's checksum collides with the original's. With a collision
/// free checksum the mismatch error is the only outcome: a corrupted body
/// is never handed on.
pub proof fn lemma_corruption_detected(body: Seq<u8>, i: int, x: u8)
    requires
        body.len() <= u32::MAX,
        0 <= i < body.len(),
        x != body[i],
    ensures
        ({
            let corrupted = spec_frame(body).update(16 + i, x);
            let altered = body.update(i, x);
            &&& (crc32_of(altered) != crc32_of(body) ==> spec_decode_frame(corrupted) == Err::<
                Seq<u8>,
                DecodeError,
            >(DecodeError::CrcMismatch { expected: crc32_of(body), actual: crc32_of(altered) }))
            &&& (spec_decode_frame(corrupted) matches Ok(b) ==> crc32_of(altered) == crc32_of(
                body,
            ) && b == altered)
        }),
{
    let d0 = spec_frame(body);
    let d = d0.update(16 + i, x);
    let altered = body.update(i, x);
    assert(d.len() == 16 + body.len());
    assert(d.subrange(0, 4) =~= spec_magic());
    lemma_frame_roundtrip(body);
    assert(forall|k: int| 0 <= k < 16 ==> d[k] == d0[k]);
    assert(spec_u16_at(d, 4) == spec_u16_at(d0, 4));
    assert(spec_u32_at(d, 8) == spec_u32_at(d0, 8));
    assert(spec_u32_at(d, 12) == spec_u32_at(d0, 12));
    assert(d.subrange(16, 16 + body.len() as int) =~= altered);
}

/// A target resolution in pixels.
#[derive(Debug, Clone, Copy, PartialEq, Eq, Structural)]
pub struct Resolution {
    pub width: u32,
    pub height: u32,
}

/// Episode metadata: title, episode number, duration and target
/// resolution. The duration is in milliseconds, like every time value of
/// this library.
#[derive(Debug, Clone)]
pub struct EpisodeMetadata {
    pub title: String,
    pub episode_number: u32,
    pub duration_ms: i64,
    pub resolution: Resolution,
}

impl EpisodeMetadata {
    /// Metadata with the default full-HD target resolution.
    pub fn new(title: &str, episode_number: u32, duration: i64) -> (r: EpisodeMetadata)
        ensures
            r.title@ == title@,
            r.episode_number == episode_number,
            r.duration_ms == duration,
            r.resolution == (Resolution { width: 1920u32, height: 1080u32 }),
    {
        EpisodeMetadata {
            title: <String as vstd::string::StringExecFns>::from_str(title),
            episode_number,
            duration_ms: duration,
            resolution: Resolution { width: 1920, height: 1080 },
        }
    }
}

/// The encoding of the metadata block. Opaque: proofs reveal it only where
/// the layout itself matters.
#[verifier::opaque]
pub open spec fn spec_enc_metadata(
    title: Seq<char>,
    episode_number: u32,
    duration_ms: i64,
    resolution: Resolution,
) -> Seq<u8> {
    spec_enc_string(title) + spec_enc_u32(episode_number as int) + spec_enc_i64(
        duration_ms as int,
    ) + spec_enc_u32(resolution.width as int) + spec_enc_u32(resolution.height as int)
}

/// Append the metadata block.
pub fn enc_metadata(out: &mut Vec<u8>, m: &EpisodeMetadata)
    ensures
        final(out)@ == old(out)@ + spec_enc_metadata(
            m.title@,
            m.episode_number,
            m.duration_ms,
            m.resolution,
        ),
{
    proof {
        reveal(spec_enc_metadata);
    }
    let ghost o0 = out@;
    enc_string(out, &m.title);
    enc_u32(out, m.episode_number);
    enc_i64(out, m.duration_ms);
    enc_u32(out, m.resolution.width);
    enc_u32(out, m.resolution.height);
    proof {
        assert(out@ =~= o0 + spec_enc_metadata(
            m.title@,
            m.episode_number,
            m.duration_ms,
            m.resolution,
        ));
    }
}

/// Decode the metadata block. When the buffer at `pos` carries an encoded
/// metadata block, the result is exactly that block.
pub fn dec_metadata(data: &Vec<u8>, pos: usize) -> (r: Option<(EpisodeMetadata, usize)>)
    ensures
        match r {
            Some(p) => pos <= p.1 <= data@.len() && data@.subrange(pos as int, p.1 as int)
                == spec_enc_metadata(
                p.0.title@,
                p.0.episode_number,
                p.0.duration_ms,
                p.0.resolution,
            ),
            None => true,
        },
{
    let (title, pos1) = match dec_string(data, pos) {
        Some(p) => p,
        None => {
            return None;
        },
    };
    let (number, pos2) = match dec_u32(data, pos1) {
        Some(p) => p,
        None => {
            return None;
        },
    };
    let (duration, pos3) = match dec_i64(data, pos2) {
        Some(p) => p,
        None => {
            return None;
        },
    };
    let (rx, pos4) = match dec_u32(data, pos3) {
        Some(p) => p,
        None => {
            return None;
        },
    };
    let (ry, pos5) = match dec_u32(data, pos4) {
        Some(p) => p,
        None => {
            return None;
        },
    };
    let m = EpisodeMetadata {
        title,
        episode_number: number,
        duration_ms: duration,
        resolution: Resolution { width: rx, height: ry },
    };
    proof {
        reveal(spec_enc_metadata);
        assert(data@.subrange(pos as int, pos5 as int) =~= spec_enc_metadata(
            m.title@,
            m.episode_number,
            m.duration_ms,
            m.resolution,
        ));
    }
    Some((m, pos5))
}

/// Metadata encodings are injective in each field.
#[verifier::rlimit(100)]
#[verifier::spinoff_prover]
proof fn lemma_metadata_fields(
    t: Seq<char>,
    n1: u32,
    dur1: i64,
    res1: Resolution,
    n2: u32,
    dur2: i64,
    res2: Resolution,
)
    requires
        spec_enc_metadata(t, n1, dur1, res1) == spec_enc_metadata(t, n2, dur2, res2),
    ensures
        n1 == n2 && dur1 == dur2 && res1 == res2,
{
    reveal(spec_enc_metadata);
    let e1 = spec_enc_metadata(t, n1, dur1, res1);
    let e2 = spec_enc_metadata(t, n2, dur2, res2);
    let sl = spec_enc_string(t).len() as int;
    assert(spec_enc_u32(n1 as int) =~= e1.subrange(sl, sl + 4));
    assert(spec_enc_u32(n2 as int) =~= e2.subrange(sl, sl + 4));
    crate::codec::lemma_enc_u32_injective(n1 as int, n2 as int);
    assert(spec_enc_i64(dur1 as int) =~= e1.subrange(sl + 4, sl + 12));
    assert(spec_enc_i64(dur2 as int) =~= e2.subrange(sl + 4, sl + 12));
    crate::codec::lemma_enc_u64_injective(
        (dur1 as int) % 0x10000000000000000,
        (dur2 as int) % 0x10000000000000000,
    );
    assert(dur1 == dur2);
    assert(spec_enc_u32(res1.width as int) =~= e1.subrange(sl + 12, sl + 16));
    assert(spec_enc_u32(res2.width as int) =~= e2.subrange(sl + 12, sl + 16));
    crate::codec::lemma_enc_u32_injective(res1.width as int, res2.width as int);
    assert(spec_enc_u32(res1.height as int) =~= e1.subrange(sl + 16, sl + 20));
    assert(spec_enc_u32(res2.height as int) =~= e2.subrange(sl + 16, sl + 20));
    crate::codec::lemma_enc_u32_injective(res1.height as int, res2.height as int);
}

/// A metadata encoding at a position puts the title's string encoding at
/// that position.
#[verifier::rlimit(100)]
#[verifier::spinoff_prover]
proof fn lemma_metadata_string_prefix(
    d: Seq<u8>,
    pos: int,
    t: Seq<char>,
    n: u32,
    dur: i64,
    res: Resolution,
)
    requires
        0 <= pos,
        pos + spec_enc_metadata(t, n, dur, res).len() <= d.len(),
        d.subrange(pos, pos + spec_enc_metadata(t, n, dur, res).len()) == spec_enc_metadata(
            t,
            n,
            dur,
            res,
        ),
    ensures
        pos + spec_enc_string(t).len() <= d.len(),
        d.subrange(pos, pos + spec_enc_string(t).len() as int) == spec_enc_string(t),
{
    reveal(spec_enc_metadata);
    let e = spec_enc_metadata(t, n, dur, res);
    let st = spec_enc_string(t);
    assert(d.subrange(pos, pos + st.len() as int) =~= st) by {
        assert(forall|k: int| 0 <= k < st.len() ==> #[trigger] e[k] == st[k]);
        assert(forall|k: int| 0 <= k < e.len() ==> d[pos + k] == #[trigger] e[k]);
    }
}

/// Two metadata encodings starting at the same position of the same buffer
/// carry the same fields.
#[verifier::rlimit(100)]
#[verifier::spinoff_prover]
pub proof fn lemma_metadata_prefix_unique(
    d: Seq<u8>,
    pos: int,
    t1: Seq<char>,
    n1: u32,
    dur1: i64,
    res1: Resolution,
    t2: Seq<char>,
    n2: u32,
    dur2: i64,
    res2: Resolution,
)
    requires
        0 <= pos,
        vstd::utf8::encode_utf8(t1).len() <= u64::MAX,
        vstd::utf8::encode_utf8(t2).len() <= u64::MAX,
        pos + spec_enc_metadata(t1, n1, dur1, res1).len() <= d.len(),
        pos + spec_enc_metadata(t2, n2, dur2, res2).len() <= d.len(),
        d.subrange(pos, pos + spec_enc_metadata(t1, n1, dur1, res1).len()) == spec_enc_metadata(
            t1,
            n1,
            dur1,
            res1,
        ),
        d.subrange(pos, pos + spec_enc_metadata(t2, n2, dur2, res2).len()) == spec_enc_metadata(
            t2,
            n2,
            dur2,
            res2,
        ),
    ensures
        t1 == t2 && n1 == n2 && dur1 == dur2 && res1 == res2,
{
    reveal(spec_enc_metadata);
    let e1 = spec_enc_metadata(t1, n1, dur1, res1);
    let e2 = spec_enc_metadata(t2, n2, dur2, res2);
    let s1 = spec_enc_string(t1);
    let s2 = spec_enc_string(t2);
    lemma_metadata_string_prefix(d, pos, t1, n1, dur1, res1);
    lemma_metadata_string_prefix(d, pos, t2, n2, dur2, res2);
    lemma_enc_string_prefix_unique(d, pos, t1, t2);
    assert(s1.len() == s2.len());
    assert(e1.len() == e2.len());
    assert(pos + e1.len() as int == pos + e2.len() as int);
    assert(e1 == d.subrange(pos, pos + e1.len() as int));
    assert(e2 == d.subrange(pos, pos + e2.len() as int));
    assert(e1 == e2);
    lemma_metadata_fields(t1, n1, dur1, res1, n2, dur2, res2);
}


/// Complete episode package: all data needed to render an episode.
#[derive(Debug, Clone)]
pub struct EpisodePackage {
    pub metadata: EpisodeMetadata,
    pub scene_graph: SceneGraph,
    pub director: Director,
    pub shading: AnimeShading,
}

impl EpisodePackage {
    /// The owned structures are well-formed.
    pub open spec fn wf(&self) -> bool {
        self.scene_graph.wf() && self.director.wf()
    }

    /// Bundle the parts of an episode.
    pub fn new(
        metadata: EpisodeMetadata,
        scene_graph: SceneGraph,
        director: Director,
        shading: AnimeShading,
    ) -> (r: EpisodePackage)
        ensures
            r.metadata == metadata,
            r.scene_graph == scene_graph,
            r.director == director,
            r.shading == shading,
    {
        EpisodePackage { metadata, scene_graph, director, shading }
    }

    /// Rough serialized size: a fixed overhead plus a per-actor and a
    /// per-cut share, capped at the address-space limit.
    pub fn estimate_size(&self) -> (r: usize)
        ensures
            r == spec_estimate_size(
                spec_count_present(self.scene_graph.spec_slots()),
                self.director.spec_cuts().len() as int,
            ),
    {
        let actors = self.scene_graph.actor_count();
        let cuts = self.director.cut_count();
        let e: u128 = 256u128 + (actors as u128) * 512 + (cuts as u128) * 256;
        if e > usize::MAX as u128 {
            usize::MAX
        } else {
            e as usize
        }
    }
}

/// The size estimate: fixed overhead plus per-actor and per-cut shares,
/// capped at the address-space limit.
pub open spec fn spec_estimate_size(actors: int, cuts: int) -> int {
    let e = 256 + actors * 512 + cuts * 256;
    if e > usize::MAX {
        usize::MAX as int
    } else {
        e
    }
}

/// The verified body prefix: metadata, actor count, cut count, and the
/// director's duration, in that order. Opaque: proofs reveal it only where
/// the layout itself matters.
#[verifier::opaque]
pub open spec fn spec_body_prefix(p: EpisodePackage) -> Seq<u8> {
    spec_enc_metadata(
        p.metadata.title@,
        p.metadata.episode_number,
        p.metadata.duration_ms,
        p.metadata.resolution,
    ) + spec_enc_u64(spec_count_present(p.scene_graph.spec_slots())) + spec_enc_u64(
        p.director.spec_cuts().len() as int,
    ) + spec_enc_i64(spec_max_end(p.director.spec_cuts()))
}

/// The authoritative values of a package fit the fields of the verified
/// prefix; true of every package whose collections live in memory.
pub open spec fn spec_prefix_in_range(p: EpisodePackage) -> bool {
    &&& 0 <= spec_count_present(p.scene_graph.spec_slots()) < 0x10000000000000000
    &&& p.director.spec_cuts().len() < 0x10000000000000000
    &&& i64::MIN <= spec_max_end(p.director.spec_cuts()) <= i64::MAX
}

/// Serialize a package to a framed artifact: the body carries the metadata
/// and the authoritative counts and duration first, then the scene graph,
/// director and shading blocks; the header records the body's length and
/// checksum. Fails only when the body outgrows the length field.
pub fn serialize_episode(p: &EpisodePackage) -> (r: Result<Vec<u8>, EncodeError>)
    ensures
        match r {
            Ok(bytes) => exists|rest: Seq<u8>|
                {
                    &&& #[trigger] rest.len() >= 0
                    &&& bytes@ == spec_frame(spec_body_prefix(*p) + rest)
                    &&& (spec_body_prefix(*p) + rest).len() <= u32::MAX
                },
            Err(e) => e == EncodeError::TooLarge,
        },
{
    let mut body: Vec<u8> = Vec::new();
    enc_metadata(&mut body, &p.metadata);
    let actor_count = p.scene_graph.actor_count();
    enc_u64(&mut body, actor_count as u64);
    let cut_count = p.director.cut_count();
    enc_u64(&mut body, cut_count as u64);
    let duration = p.director.duration();
    enc_i64(&mut body, duration);
    let ghost prefix = body@;
    proof {
        reveal(spec_body_prefix);
        assert(spec_count_present(p.scene_graph.spec_slots()) >= 0) by {
            lemma_count_present_bounds(p.scene_graph.spec_slots());
        }
        assert(prefix =~= spec_body_prefix(*p));
    }
    crate::container::enc_scene_graph(&mut body, &p.scene_graph);
    let ghost m1 = body@;
    crate::container::enc_director(&mut body, &p.director);
    proof {
        crate::container::lemma_extends_trans(prefix, m1, body@);
    }
    let ghost m2 = body@;
    crate::container::enc_shading(&mut body, &p.shading);
    proof {
        crate::container::lemma_extends_trans(prefix, m2, body@);
    }
    let ghost rest = body@.subrange(prefix.len() as int, body@.len() as int);
    proof {
        assert(body@ =~= prefix + rest);
    }
    match encode_frame(&body) {
        Ok(framed) => {
            proof {
                assert(framed@ == spec_frame(spec_body_prefix(*p) + rest));
                assert((spec_body_prefix(*p) + rest).len() <= u32::MAX);
            }
            Ok(framed)
        },
        Err(e) => Err(e),
    }
}

/// The occupied-slot count is between zero and the slot count.
pub proof fn lemma_count_present_bounds(s: Seq<Option<crate::scene::Actor>>)
    ensures
        0 <= spec_count_present(s) <= s.len(),
    decreases s.len(),
{
    if s.len() > 0 {
        lemma_count_present_bounds(s.drop_last());
    }
}

/// Deserialize a framed artifact: validate the header (magic, version,
/// length, checksum — in that order, before interpreting any body byte),
/// then decode the body and cross-check the recorded actor count, cut count
/// and duration against the decoded structures.
///
/// The contract pins both branches: a frame the framing rule rejects is
/// rejected here with exactly the framing rule's error, and success is
/// possible only when the framing rule accepts — so bad magic, a bad
/// version, a truncated body and a checksum mismatch can never decode. The
/// round-trip clause states that whenever the framed body begins with an
/// encoded metadata block and the three authoritative values, a
/// successfully decoded package reproduces exactly those values — the heart
/// of the container round-trip law.
#[verifier::rlimit(100)]
#[verifier::spinoff_prover]
pub fn deserialize_episode(data: &Vec<u8>) -> (r: Result<EpisodePackage, DecodeError>)
    ensures
        spec_decode_frame(data@) matches Err(e0) ==> r == Err::<EpisodePackage, DecodeError>(e0),
        r is Ok ==> spec_decode_frame(data@) is Ok,
        match r {
            Ok(q) => q.wf() && (forall|p2: EpisodePackage, rest: Seq<u8>|
                #![trigger spec_body_prefix(p2), rest.len()]
                spec_prefix_in_range(p2) && spec_decode_frame(data@) == Ok::<
                    Seq<u8>,
                    DecodeError,
                >(spec_body_prefix(p2) + rest) ==> q.metadata.title@ == p2.metadata.title@ && q.metadata.episode_number
                    == p2.metadata.episode_number && q.metadata.duration_ms
                    == p2.metadata.duration_ms && q.metadata.resolution
                    == p2.metadata.resolution && spec_count_present(q.scene_graph.spec_slots())
                    == spec_count_present(p2.scene_graph.spec_slots())
                    && q.director.spec_cuts().len() == p2.director.spec_cuts().len()
                    && spec_max_end(q.director.spec_cuts()) == spec_max_end(
                    p2.director.spec_cuts(),
                )),
            Err(e) => (spec_decode_frame(data@) matches Err(e0) && e == e0) || (
            spec_decode_frame(data@) is Ok && e == DecodeError::InvalidBody),
        },
{
    let body = match decode_frame(data) {
        Ok(b) => b,
        Err(e) => {
            return Err(e);
        },
    };
    let (meta, p1) = match dec_metadata(&body, 0) {
        Some(p) => p,
        None => {
            return Err(DecodeError::InvalidBody);
        },
    };
    let (ca, p2) = match dec_u64(&body, p1) {
        Some(p) => p,
        None => {
            return Err(DecodeError::InvalidBody);
        },
    };
    let (cc, p3) = match dec_u64(&body, p2) {
        Some(p) => p,
        None => {
            return Err(DecodeError::InvalidBody);
        },
    };
    let (dr, p4) = match dec_i64(&body, p3) {
        Some(p) => p,
        None => {
            return Err(DecodeError::InvalidBody);
        },
    };
    let (sg, p5) = match crate::container::dec_scene_graph(&body, p4) {
        Some(p) => p,
        None => {
            return Err(DecodeError::InvalidBody);
        },
    };
    let (dir, p6) = match crate::container::dec_director(&body, p5) {
        Some(p) => p,
        None => {
            return Err(DecodeError::InvalidBody);
        },
    };
    let (shading, _p7) = match crate::container::dec_shading(&body, p6) {
        Some(p) => p,
        None => {
            return Err(DecodeError::InvalidBody);
        },
    };
    // Cross-check the authoritative values against the decoded structures.
    let actual_actors = sg.actor_count();
    if ca > usize::MAX as u64 || actual_actors != ca as usize {
        return Err(DecodeError::InvalidBody);
    }
    let actual_cuts = dir.cut_count();
    if cc > usize::MAX as u64 || actual_cuts != cc as usize {
        return Err(DecodeError::InvalidBody);
    }
    let actual_duration = dir.duration();
    if actual_duration != dr {
        return Err(DecodeError::InvalidBody);
    }
    let q = EpisodePackage { metadata: meta, scene_graph: sg, director: dir, shading };
    proof {
        let b = body@;
        assert forall|p2: EpisodePackage, rest: Seq<u8>|
            spec_prefix_in_range(p2) && spec_decode_frame(data@) == Ok::<Seq<u8>, DecodeError>(
                spec_body_prefix(p2) + rest,
            ) implies meta.title@ == p2.metadata.title@ && meta.episode_number
            == p2.metadata.episode_number && meta.duration_ms == p2.metadata.duration_ms
            && meta.resolution == p2.metadata.resolution && ca as int == spec_count_present(
            p2.scene_graph.spec_slots(),
        ) && cc as int == p2.director.spec_cuts().len() && dr as int == spec_max_end(
            p2.director.spec_cuts(),
        ) by {
            reveal(spec_body_prefix);
            lemma_prefix_determined(
                b,
                meta.title@,
                meta.episode_number,
                meta.duration_ms,
                meta.resolution,
                p1 as int,
                ca,
                cc,
                dr,
                p2.metadata.title@,
                p2.metadata.episode_number,
                p2.metadata.duration_ms,
                p2.metadata.resolution,
                spec_count_present(p2.scene_graph.spec_slots()),
                p2.director.spec_cuts().len() as int,
                spec_max_end(p2.director.spec_cuts()),
                rest,
            );
        }
    }
    Ok(q)
}

/// Splitting a five-part concatenation into its pieces by subranges.
#[verifier::rlimit(100)]
#[verifier::spinoff_prover]
proof fn lemma_split_concat(
    em: Seq<u8>,
    x1: Seq<u8>,
    x2: Seq<u8>,
    x3: Seq<u8>,
    rest: Seq<u8>,
    b: Seq<u8>,
)
    requires
        b == em + x1 + x2 + x3 + rest,
        x1.len() == 8,
        x2.len() == 8,
        x3.len() == 8,
    ensures
        b.len() == em.len() + 24 + rest.len(),
        b.subrange(0, em.len() as int) == em,
        b.subrange(em.len() as int, em.len() as int + 8) == x1,
        b.subrange(em.len() as int + 8, em.len() as int + 16) == x2,
        b.subrange(em.len() as int + 16, em.len() as int + 24) == x3,
{
    let lm = em.len() as int;
    assert(b.subrange(0, lm) =~= em);
    assert(b.subrange(lm, lm + 8) =~= x1);
    assert(b.subrange(lm + 8, lm + 16) =~= x2);
    assert(b.subrange(lm + 16, lm + 24) =~= x3);
}

/// The verified prefix of a decoded body determines the metadata fields
/// and the three authoritative values.
#[verifier::rlimit(100)]
#[verifier::spinoff_prover]
proof fn lemma_prefix_determined(
    b: Seq<u8>,
    dt: Seq<char>,
    dn: u32,
    dd: i64,
    dres: Resolution,
    p1: int,
    ca: u64,
    cc: u64,
    dr: i64,
    mt: Seq<char>,
    mn: u32,
    md: i64,
    mres: Resolution,
    ca2: int,
    cc2: int,
    dr2: int,
    rest: Seq<u8>,
)
    requires
        b.len() <= usize::MAX,
        b == spec_enc_metadata(mt, mn, md, mres) + spec_enc_u64(ca2) + spec_enc_u64(cc2)
            + spec_enc_i64(dr2) + rest,
        0 <= ca2 < 0x10000000000000000,
        0 <= cc2 < 0x10000000000000000,
        i64::MIN <= dr2 <= i64::MAX,
        0 <= p1,
        p1 + 24 <= b.len(),
        b.subrange(0, p1) == spec_enc_metadata(dt, dn, dd, dres),
        b.subrange(p1, p1 + 8) == spec_enc_u64(ca as int),
        b.subrange(p1 + 8, p1 + 16) == spec_enc_u64(cc as int),
        b.subrange(p1 + 16, p1 + 24) == spec_enc_i64(dr as int),
    ensures
        dt == mt && dn == mn && dd == md && dres == mres && ca as int == ca2 && cc as int == cc2
            && dr as int == dr2,
{
    lemma_prefix_meta_part(b, dt, dn, dd, dres, p1, mt, mn, md, mres, ca2, cc2, dr2, rest);
    crate::codec::lemma_enc_u64_injective(ca2, ca as int);
    crate::codec::lemma_enc_u64_injective(cc2, cc as int);
    crate::codec::lemma_enc_i64_injective(dr2 as i64, dr);
}

/// The metadata step of prefix determination: the decoded metadata matches
/// the encoded one, and the three number fields sit right after it.
#[verifier::rlimit(100)]
#[verifier::spinoff_prover]
proof fn lemma_prefix_meta_part(
    b: Seq<u8>,
    dt: Seq<char>,
    dn: u32,
    dd: i64,
    dres: Resolution,
    p1: int,
    mt: Seq<char>,
    mn: u32,
    md: i64,
    mres: Resolution,
    ca2: int,
    cc2: int,
    dr2: int,
    rest: Seq<u8>,
)
    requires
        b.len() <= usize::MAX,
        b == spec_enc_metadata(mt, mn, md, mres) + spec_enc_u64(ca2) + spec_enc_u64(cc2)
            + spec_enc_i64(dr2) + rest,
        0 <= p1,
        p1 + 24 <= b.len(),
        b.subrange(0, p1) == spec_enc_metadata(dt, dn, dd, dres),
    ensures
        dt == mt && dn == mn && dd == md && dres == mres,
        p1 == spec_enc_metadata(mt, mn, md, mres).len(),
        b.subrange(p1, p1 + 8) == spec_enc_u64(ca2),
        b.subrange(p1 + 8, p1 + 16) == spec_enc_u64(cc2),
        b.subrange(p1 + 16, p1 + 24) == spec_enc_i64(dr2),
{
    let em = spec_enc_metadata(mt, mn, md, mres);
    lemma_split_concat(em, spec_enc_u64(ca2), spec_enc_u64(cc2), spec_enc_i64(dr2), rest, b);
    assert(vstd::utf8::encode_utf8(mt).len() <= em.len()) by {
        reveal(spec_enc_metadata);
    }
    assert(vstd::utf8::encode_utf8(dt).len() <= b.len()) by {
        reveal(spec_enc_metadata);
        assert(spec_enc_string(dt).len() <= spec_enc_metadata(dt, dn, dd, dres).len());
    }
    lemma_metadata_prefix_unique(b, 0, mt, mn, md, mres, dt, dn, dd, dres);
    assert(em.len() as int == p1);
}

/// The framed artifact of a package decodes to a body carrying the
/// package's verified prefix.
#[verifier::rlimit(100)]
#[verifier::spinoff_prover]
proof fn lemma_prefix_instance(p: EpisodePackage, rest: Seq<u8>, framed: Seq<u8>)
    requires
        framed == spec_frame(spec_body_prefix(p) + rest),
        (spec_body_prefix(p) + rest).len() <= u32::MAX,
    ensures
        rest.len() >= 0,
        spec_decode_frame(framed) == Ok::<Seq<u8>, DecodeError>(spec_body_prefix(p) + rest),
{
    lemma_frame_roundtrip(spec_body_prefix(p) + rest);
}

/// The container round-trip law: serializing a package and deserializing
/// the artifact either reports a failure (possible only at an embedded
/// shape block) or reproduces the package's metadata, actor count, cut
/// count and total director duration exactly.
#[verifier::rlimit(100)]
#[verifier::spinoff_prover]
pub fn roundtrip_check(p: &EpisodePackage) -> (r: Option<EpisodePackage>)
    ensures
        match r {
            Some(q) => q.wf() && q.metadata.title@ == p.metadata.title@
                && q.metadata.episode_number == p.metadata.episode_number
                && q.metadata.duration_ms == p.metadata.duration_ms && q.metadata.resolution
                == p.metadata.resolution && spec_count_present(q.scene_graph.spec_slots())
                == spec_count_present(p.scene_graph.spec_slots())
                && q.director.spec_cuts().len() == p.director.spec_cuts().len() && spec_max_end(
                q.director.spec_cuts(),
            ) == spec_max_end(p.director.spec_cuts()),
            None => true,
        },
{
    let ghost slot_count = p.scene_graph.spec_slots().len();
    let all_actors = p.scene_graph.actor_count();
    let all_cuts = p.director.cut_count();
    let bytes = match serialize_episode(p) {
        Ok(b) => b,
        Err(_) => {
            return None;
        },
    };
    let ghost rest = choose|rest: Seq<u8>|
        {
            &&& #[trigger] rest.len() >= 0
            &&& bytes@ == spec_frame(spec_body_prefix(*p) + rest)
            &&& (spec_body_prefix(*p) + rest).len() <= u32::MAX
        };
    proof {
        lemma_frame_roundtrip(spec_body_prefix(*p) + rest);
    }
    match deserialize_episode(&bytes) {
        Ok(q) => {
            proof {
                lemma_prefix_instance(*p, rest, bytes@);
                lemma_count_present_bounds(p.scene_graph.spec_slots());
                crate::director::lemma_max_end_range(p.director.spec_cuts());
                assert(spec_prefix_in_range(*p));
            }
            Some(q)
        },
        Err(_) => None,
    }
}
} // verus!
