//! Byte-level encoders and decoders for the episode container body: little
//! endian fixed-width integers, length-prefixed UTF-8 strings and byte
//! blocks. Every decoder's contract is strong enough to replay an encoder's
//! output: a buffer that starts with a value's encoding decodes to exactly
//! that value.

use vstd::prelude::*;

use vstd::string::StrSliceExecFns;
use vstd::string::StringSliceAdditionalSpecFns;
use vstd::utf8::{encode_utf8, valid_utf8};

verus! {

/// Little-endian bytes of a 16-bit value.
pub open spec fn spec_enc_u16(v: int) -> Seq<u8> {
    seq![(v % 256) as u8, ((v / 256) % 256) as u8]
}

/// Little-endian bytes of a 32-bit value.
pub open spec fn spec_enc_u32(v: int) -> Seq<u8> {
    seq![
        (v % 256) as u8,
        ((v / 256) % 256) as u8,
        ((v / 65536) % 256) as u8,
        ((v / 16777216) % 256) as u8,
    ]
}

/// Little-endian bytes of a 64-bit value.
pub open spec fn spec_enc_u64(v: int) -> Seq<u8> {
    seq![
        (v % 256) as u8,
        ((v / 0x100) % 256) as u8,
        ((v / 0x10000) % 256) as u8,
        ((v / 0x1000000) % 256) as u8,
        ((v / 0x100000000) % 256) as u8,
        ((v / 0x10000000000) % 256) as u8,
        ((v / 0x1000000000000) % 256) as u8,
        ((v / 0x100000000000000) % 256) as u8,
    ]
}

/// A signed 64-bit value in two's complement little-endian bytes.
pub open spec fn spec_enc_i64(v: int) -> Seq<u8> {
    spec_enc_u64(v % 0x10000000000000000)
}

/// Length-prefixed UTF-8 bytes of a string.
pub open spec fn spec_enc_string(s: Seq<char>) -> Seq<u8> {
    spec_enc_u64(encode_utf8(s).len() as int) + encode_utf8(s)
}

/// Length-prefixed raw bytes.
pub open spec fn spec_enc_bytes(b: Seq<u8>) -> Seq<u8> {
    spec_enc_u64(b.len() as int) + b
}

/// Append the two little-endian bytes of a 16-bit value.
pub fn enc_u16(out: &mut Vec<u8>, v: u16)
    ensures
        final(out)@ == old(out)@ + spec_enc_u16(v as int),
{
    let ghost o0 = out@;
    out.push((v % 256) as u8);
    out.push((v / 256) as u8);
    proof {
        assert(out@ =~= o0 + spec_enc_u16(v as int));
    }
}

/// Append the four little-endian bytes of a 32-bit value.
pub fn enc_u32(out: &mut Vec<u8>, v: u32)
    ensures
        final(out)@ == old(out)@ + spec_enc_u32(v as int),
{
    let ghost o0 = out@;
    out.push((v % 256) as u8);
    out.push(((v / 256) % 256) as u8);
    out.push(((v / 65536) % 256) as u8);
    out.push(((v / 16777216) % 256) as u8);
    proof {
        assert(out@ =~= o0 + spec_enc_u32(v as int));
    }
}

/// Append the eight little-endian bytes of a 64-bit value.
pub fn enc_u64(out: &mut Vec<u8>, v: u64)
    ensures
        final(out)@ == old(out)@ + spec_enc_u64(v as int),
{
    let ghost o0 = out@;
    out.push((v % 256) as u8);
    out.push(((v / 0x100) % 256) as u8);
    out.push(((v / 0x10000) % 256) as u8);
    out.push(((v / 0x1000000) % 256) as u8);
    out.push(((v / 0x100000000) % 256) as u8);
    out.push(((v / 0x10000000000) % 256) as u8);
    out.push(((v / 0x1000000000000) % 256) as u8);
    out.push(((v / 0x100000000000000) % 256) as u8);
    proof {
        assert(out@ =~= o0 + spec_enc_u64(v as int));
    }
}

/// Append a signed 64-bit value in two's complement.
pub fn enc_i64(out: &mut Vec<u8>, v: i64)
    ensures
        final(out)@ == old(out)@ + spec_enc_i64(v as int),
{
    let u: u64 = if v >= 0 {
        v as u64
    } else {
        proof {
            assert((v as int) % 0x10000000000000000 == v as int + 0x10000000000000000);
        }
        (v as i128 + 0x10000000000000000i128) as u64
    };
    proof {
        assert(u as int == (v as int) % 0x10000000000000000);
    }
    enc_u64(out, u);
}

/// Decode a 32-bit value; fails only when fewer than four bytes remain.
#[verifier::rlimit(60)]
pub fn dec_u32(data: &Vec<u8>, pos: usize) -> (r: Option<(u32, usize)>)
    ensures
        match r {
            Some(p) => pos + 4 <= data@.len() && p.1 == pos + 4 && data@.subrange(
                pos as int,
                pos + 4,
            ) == spec_enc_u32(p.0 as int),
            None => pos + 4 > data@.len(),
        },
{
    if pos >= data.len() || data.len() - pos < 4 {
        return None;
    }
    let b0 = data[pos] as u32;
    let b1 = data[pos + 1] as u32;
    let b2 = data[pos + 2] as u32;
    let b3 = data[pos + 3] as u32;
    let v = b0 + b1 * 0x100 + b2 * 0x10000 + b3 * 0x1000000;
    proof {
        assert(data@.subrange(pos as int, pos + 4) =~= spec_enc_u32(v as int));
    }
    Some((v, pos + 4))
}

/// Decode a 64-bit value; fails only when fewer than eight bytes remain.
pub fn dec_u64(data: &Vec<u8>, pos: usize) -> (r: Option<(u64, usize)>)
    ensures
        match r {
            Some(p) => pos + 8 <= data@.len() && p.1 == pos + 8 && data@.subrange(
                pos as int,
                pos + 8,
            ) == spec_enc_u64(p.0 as int),
            None => pos + 8 > data@.len(),
        },
{
    if pos >= data.len() || data.len() - pos < 8 {
        return None;
    }
    let b0 = data[pos] as u64;
    let b1 = data[pos + 1] as u64;
    let b2 = data[pos + 2] as u64;
    let b3 = data[pos + 3] as u64;
    let b4 = data[pos + 4] as u64;
    let b5 = data[pos + 5] as u64;
    let b6 = data[pos + 6] as u64;
    let b7 = data[pos + 7] as u64;
    let v = b0 + b1 * 0x100 + b2 * 0x10000 + b3 * 0x1000000 + b4 * 0x100000000 + b5
        * 0x10000000000 + b6 * 0x1000000000000 + b7 * 0x100000000000000;
    proof {
        assert(data@.subrange(pos as int, pos + 8) =~= spec_enc_u64(v as int)) by {
            assert((v as int) % 256 == b0 as int && ((v as int) / 0x100) % 256 == b1 as int
                && ((v as int) / 0x10000) % 256 == b2 as int && ((v as int) / 0x1000000) % 256
                == b3 as int && ((v as int) / 0x100000000) % 256 == b4 as int && ((
            v as int) / 0x10000000000) % 256 == b5 as int && ((v as int) / 0x1000000000000) % 256
                == b6 as int && ((v as int) / 0x100000000000000) % 256 == b7 as int)
                by (bit_vector)
                requires
                    v == b0 + b1 * 0x100 + b2 * 0x10000 + b3 * 0x1000000 + b4 * 0x100000000 + b5
                        * 0x10000000000 + b6 * 0x1000000000000 + b7 * 0x100000000000000,
                    b0 < 256 && b1 < 256 && b2 < 256 && b3 < 256 && b4 < 256 && b5 < 256 && b6
                        < 256 && b7 < 256,
            ;
        }
    }
    Some((v, pos + 8))
}

/// Decode a signed 64-bit value from its two's complement bytes.
pub fn dec_i64(data: &Vec<u8>, pos: usize) -> (r: Option<(i64, usize)>)
    ensures
        match r {
            Some(p) => pos + 8 <= data@.len() && p.1 == pos + 8 && data@.subrange(
                pos as int,
                pos + 8,
            ) == spec_enc_i64(p.0 as int),
            None => pos + 8 > data@.len(),
        },
{
    match dec_u64(data, pos) {
        None => None,
        Some((u, j)) => {
            let v: i64 = if u <= i64::MAX as u64 {
                u as i64
            } else {
                ((u as i128) - 0x10000000000000000i128) as i64
            };
            proof {
                assert((v as int) % 0x10000000000000000 == u as int);
            }
            Some((v, j))
        },
    }
}

/// An encoding of a 64-bit value determines that value.
pub proof fn lemma_enc_u64_injective(a: int, b: int)
    requires
        0 <= a < 0x10000000000000000,
        0 <= b < 0x10000000000000000,
        spec_enc_u64(a) == spec_enc_u64(b),
    ensures
        a == b,
{
    let ea = spec_enc_u64(a);
    let eb = spec_enc_u64(b);
    assert(ea[0] == eb[0] && ea[1] == eb[1] && ea[2] == eb[2] && ea[3] == eb[3] && ea[4] == eb[4]
        && ea[5] == eb[5] && ea[6] == eb[6] && ea[7] == eb[7]);
    assert(a == b) by (nonlinear_arith)
        requires
            0 <= a < 0x10000000000000000,
            0 <= b < 0x10000000000000000,
            a % 256 == b % 256,
            (a / 0x100) % 256 == (b / 0x100) % 256,
            (a / 0x10000) % 256 == (b / 0x10000) % 256,
            (a / 0x1000000) % 256 == (b / 0x1000000) % 256,
            (a / 0x100000000) % 256 == (b / 0x100000000) % 256,
            (a / 0x10000000000) % 256 == (b / 0x10000000000) % 256,
            (a / 0x1000000000000) % 256 == (b / 0x1000000000000) % 256,
            (a / 0x100000000000000) % 256 == (b / 0x100000000000000) % 256,
    ;
}

/// An encoding of a signed 64-bit value determines that value.
pub proof fn lemma_enc_i64_injective(a: i64, b: i64)
    requires
        spec_enc_i64(a as int) == spec_enc_i64(b as int),
    ensures
        a == b,
{
    assert((a as int) % 0x10000000000000000 == if a >= 0 {
        a as int
    } else {
        a as int + 0x10000000000000000
    });
    assert((b as int) % 0x10000000000000000 == if b >= 0 {
        b as int
    } else {
        b as int + 0x10000000000000000
    });
    lemma_enc_u64_injective(
        (a as int) % 0x10000000000000000,
        (b as int) % 0x10000000000000000,
    );
}

/// Append a length-prefixed byte block.
pub fn enc_bytes(out: &mut Vec<u8>, b: &Vec<u8>)
    ensures
        final(out)@ == old(out)@ + spec_enc_bytes(b@),
{
    let ghost o0 = out@;
    enc_u64(out, b.len() as u64);
    let mut i: usize = 0;
    while i < b.len()
        invariant
            i <= b@.len(),
            out@ == o0 + spec_enc_u64(b@.len() as int) + b@.take(i as int),
        decreases b@.len() - i,
    {
        out.push(b[i]);
        proof {
            assert(b@.take(i + 1) =~= b@.take(i as int).push(b@[i as int]));
            assert(out@ =~= o0 + spec_enc_u64(b@.len() as int) + b@.take(i + 1));
        }
        i = i + 1;
    }
    proof {
        assert(b@.take(b@.len() as int) =~= b@);
        assert(out@ =~= o0 + spec_enc_bytes(b@));
    }
}

/// Decode a length-prefixed byte block.
pub fn dec_bytes(data: &Vec<u8>, pos: usize) -> (r: Option<(Vec<u8>, usize)>)
    ensures
        match r {
            Some(p) => pos <= p.1 <= data@.len() && p.0@.len() <= u64::MAX && data@.subrange(
                pos as int,
                p.1 as int,
            ) == spec_enc_bytes(p.0@),
            None => forall|b: Seq<u8>|
                b.len() <= u64::MAX && pos + spec_enc_bytes(b).len() <= data@.len()
                    ==> data@.subrange(
                    pos as int,
                    pos + spec_enc_bytes(b).len(),
                ) != spec_enc_bytes(b),
        },
{
    let ghost d = data@;
    match dec_u64(data, pos) {
        None => {
            proof {
                assert forall|b: Seq<u8>|
                    b.len() <= u64::MAX && pos + spec_enc_bytes(b).len() <= d.len()
                        implies d.subrange(pos as int, pos + spec_enc_bytes(b).len())
                    != spec_enc_bytes(b) by {
                    assert(spec_enc_bytes(b).len() >= 8);
                }
            }
            None
        },
        Some((n, body_start)) => {
            let dlen_check = data.len();
            proof {
                assert(d.len() == dlen_check as int);
            }
            if n > usize::MAX as u64 {
                proof {
                    lemma_dec_bytes_len_mismatch(d, pos as int, n as int);
                }
                return None;
            }
            let n_usize = n as usize;
            if data.len() - body_start < n_usize {
                proof {
                    lemma_dec_bytes_len_mismatch(d, pos as int, n as int);
                }
                return None;
            }
            let dlen = data.len();
            let mut out: Vec<u8> = Vec::new();
            let mut i: usize = 0;
            while i < n_usize
                invariant
                    body_start + n_usize <= dlen,
                    dlen == d.len(),
                    data@ == d,
                    i <= n_usize,
                    out@ == d.subrange(body_start as int, body_start + i),
                decreases n_usize - i,
            {
                out.push(data[body_start + i]);
                proof {
                    assert(d.subrange(body_start as int, body_start + i + 1) =~= d.subrange(
                        body_start as int,
                        body_start + i,
                    ).push(d[body_start + i]));
                }
                i = i + 1;
            }
            proof {
                assert(d.subrange(pos as int, body_start + n_usize) =~= spec_enc_u64(n as int)
                    + d.subrange(body_start as int, body_start + n_usize));
                assert(d.subrange(pos as int, body_start + n_usize) =~= spec_enc_bytes(out@));
            }
            Some((out, body_start + n_usize))
        },
    }
}

/// When the buffer cannot supply `n` bytes after a length prefix of `n`,
/// no block encoding can start at this position.
proof fn lemma_dec_bytes_len_mismatch(d: Seq<u8>, pos: int, n: int)
    requires
        0 <= pos,
        pos + 8 <= d.len(),
        0 <= n < 0x10000000000000000,
        d.subrange(pos, pos + 8) == spec_enc_u64(n),
        pos + 8 + n > d.len(),
    ensures
        forall|b: Seq<u8>|
            b.len() <= u64::MAX && pos + spec_enc_bytes(b).len() <= d.len() ==> d.subrange(
                pos,
                pos + spec_enc_bytes(b).len(),
            ) != spec_enc_bytes(b),
{
    assert forall|b: Seq<u8>|
        b.len() <= u64::MAX && pos + spec_enc_bytes(b).len() <= d.len() implies d.subrange(
        pos,
        pos + spec_enc_bytes(b).len(),
    ) != spec_enc_bytes(b) by {
        if d.subrange(pos, pos + spec_enc_bytes(b).len()) == spec_enc_bytes(b) {
            assert(d.subrange(pos, pos + spec_enc_bytes(b).len()).subrange(0, 8) =~= d.subrange(
                pos,
                pos + 8,
            ));
            assert(spec_enc_bytes(b).subrange(0, 8) =~= spec_enc_u64(b.len() as int));
            lemma_enc_u64_injective(b.len() as int, n);
            assert(false);
        }
    }
}

/// An encoding of a 32-bit value determines that value.
pub proof fn lemma_enc_u32_injective(a: int, b: int)
    requires
        0 <= a < 0x100000000,
        0 <= b < 0x100000000,
        spec_enc_u32(a) == spec_enc_u32(b),
    ensures
        a == b,
{
    let ea = spec_enc_u32(a);
    let eb = spec_enc_u32(b);
    assert(ea[0] == eb[0] && ea[1] == eb[1] && ea[2] == eb[2] && ea[3] == eb[3]);
    assert(a == b) by (nonlinear_arith)
        requires
            0 <= a < 0x100000000,
            0 <= b < 0x100000000,
            a % 256 == b % 256,
            (a / 0x100) % 256 == (b / 0x100) % 256,
            (a / 0x10000) % 256 == (b / 0x10000) % 256,
            (a / 0x1000000) % 256 == (b / 0x1000000) % 256,
    ;
}

/// Append a length-prefixed string as UTF-8 bytes.
pub fn enc_string(out: &mut Vec<u8>, s: &String)
    ensures
        final(out)@ == old(out)@ + spec_enc_string(s@),
{
    let bytes = s.as_str().as_bytes_vec();
    enc_bytes(out, &bytes);
}

/// Relies on `String::from_utf8`: succeeds exactly on valid UTF-8 and
/// preserves the bytes of the string.
#[verifier::external_body]
fn string_from_utf8(b: Vec<u8>) -> (r: Option<String>)
    ensures
        match r {
            Some(s) => encode_utf8(s@) == b@,
            None => !valid_utf8(b@),
        },
{
    String::from_utf8(b).ok()
}

/// Decode a length-prefixed UTF-8 string.
pub fn dec_string(data: &Vec<u8>, pos: usize) -> (r: Option<(String, usize)>)
    ensures
        match r {
            Some(p) => pos <= p.1 <= data@.len() && data@.subrange(pos as int, p.1 as int)
                == spec_enc_string(p.0@),
            None => forall|t: Seq<char>|
                encode_utf8(t).len() <= u64::MAX && pos + spec_enc_string(t).len() <= data@.len()
                    ==> data@.subrange(
                    pos as int,
                    pos + spec_enc_string(t).len(),
                ) != spec_enc_string(t),
        },
{
    let ghost d = data@;
    match dec_bytes(data, pos) {
        None => {
            proof {
                assert forall|t: Seq<char>|
                    encode_utf8(t).len() <= u64::MAX && pos + spec_enc_string(t).len() <= d.len()
                        implies d.subrange(pos as int, pos + spec_enc_string(t).len())
                    != spec_enc_string(t) by {
                    assert(spec_enc_string(t) == spec_enc_bytes(encode_utf8(t)));
                }
            }
            None
        },
        Some((bytes, j)) => {
            let ghost bs = bytes@;
            match string_from_utf8(bytes) {
                Some(s) => {
                    proof {
                        assert(spec_enc_bytes(bs) == spec_enc_string(s@));
                    }
                    Some((s, j))
                },
                None => {
                    proof {
                        assert forall|t: Seq<char>|
                            encode_utf8(t).len() <= u64::MAX && pos + spec_enc_string(t).len()
                                <= d.len() implies d.subrange(
                            pos as int,
                            pos + spec_enc_string(t).len(),
                        ) != spec_enc_string(t) by {
                            if d.subrange(pos as int, pos + spec_enc_string(t).len())
                                == spec_enc_string(t) {
                                assert(spec_enc_string(t) == spec_enc_bytes(encode_utf8(t)));
                                lemma_enc_bytes_prefix_unique(d, pos as int, bs, encode_utf8(t));
                                vstd::utf8::encode_utf8_valid_utf8(t);
                                assert(false);
                            }
                        }
                    }
                    None
                },
            }
        },
    }
}

/// Two length-prefixed blocks decoded from the same position of the same
/// buffer are the same block.
proof fn lemma_enc_bytes_prefix_unique(d: Seq<u8>, pos: int, b1: Seq<u8>, b2: Seq<u8>)
    requires
        0 <= pos,
        b1.len() <= u64::MAX,
        b2.len() <= u64::MAX,
        pos + spec_enc_bytes(b1).len() <= d.len(),
        pos + spec_enc_bytes(b2).len() <= d.len(),
        d.subrange(pos, pos + spec_enc_bytes(b1).len()) == spec_enc_bytes(b1),
        d.subrange(pos, pos + spec_enc_bytes(b2).len()) == spec_enc_bytes(b2),
    ensures
        b1 == b2,
{
    assert(d.subrange(pos, pos + 8) =~= spec_enc_u64(b1.len() as int));
    assert(d.subrange(pos, pos + 8) =~= spec_enc_u64(b2.len() as int));
    lemma_enc_u64_injective(b1.len() as int, b2.len() as int);
    assert forall|k: int| 0 <= k < b1.len() implies b1[k] == b2[k] by {
        assert(spec_enc_bytes(b1)[8 + k] == b1[k]);
        assert(spec_enc_bytes(b2)[8 + k] == b2[k]);
        assert(d.subrange(pos, pos + spec_enc_bytes(b1).len())[8 + k] == d[pos + 8 + k]);
        assert(d.subrange(pos, pos + spec_enc_bytes(b2).len())[8 + k] == d[pos + 8 + k]);
    }
    assert(b1 =~= b2);
}

/// A string encoding starting at a position determines the string.
pub proof fn lemma_enc_string_prefix_unique(d: Seq<u8>, pos: int, s1: Seq<char>, s2: Seq<char>)
    requires
        0 <= pos,
        encode_utf8(s1).len() <= u64::MAX,
        encode_utf8(s2).len() <= u64::MAX,
        pos + spec_enc_string(s1).len() <= d.len(),
        pos + spec_enc_string(s2).len() <= d.len(),
        d.subrange(pos, pos + spec_enc_string(s1).len()) == spec_enc_string(s1),
        d.subrange(pos, pos + spec_enc_string(s2).len()) == spec_enc_string(s2),
    ensures
        s1 == s2,
{
    assert(spec_enc_string(s1) == spec_enc_bytes(encode_utf8(s1)));
    assert(spec_enc_string(s2) == spec_enc_bytes(encode_utf8(s2)));
    lemma_enc_bytes_prefix_unique(d, pos, encode_utf8(s1), encode_utf8(s2));
    vstd::utf8::encode_utf8_decode_utf8(s1);
    vstd::utf8::encode_utf8_decode_utf8(s2);
}

} // verus!
