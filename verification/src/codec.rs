//! Length-prefixed, deterministic binary encoding and decoding for the
//! value shapes the wire format supports: fixed-width little-endian
//! integers, compact (variable-length) integers, booleans, byte sequences
//! with a compact length prefix, fixed-size byte arrays, and tagged unions
//! with a single-byte discriminant.

use vstd::prelude::*;

verus! {

/// Why a decode failed.
#[derive(Clone, Copy, PartialEq, Eq, Structural, Debug)]
pub enum DecodeError {
    /// The input ended before the value was complete.
    Truncated,
    /// A union discriminant was outside the declared variant range.
    InvalidDiscriminant,
    /// A boolean byte was neither 0 nor 1.
    InvalidBool,
    /// A compact integer used a mode wider than this codec supports.
    CompactTooWide,
}

// ---------------------------------------------------------------------
// Little-endian fixed-width integers
// ---------------------------------------------------------------------

/// The two little-endian bytes of a `u16`.
pub open spec fn u16_le(v: u16) -> Seq<u8> {
    seq![(v & 0xff) as u8, ((v >> 8) & 0xff) as u8]
}

/// The four little-endian bytes of a `u32`.
pub open spec fn u32_le(v: u32) -> Seq<u8> {
    seq![
        (v & 0xff) as u8,
        ((v >> 8) & 0xff) as u8,
        ((v >> 16) & 0xff) as u8,
        ((v >> 24) & 0xff) as u8,
    ]
}

/// The eight little-endian bytes of a `u64`.
pub open spec fn u64_le(v: u64) -> Seq<u8> {
    seq![
        (v & 0xff) as u8,
        ((v >> 8) & 0xff) as u8,
        ((v >> 16) & 0xff) as u8,
        ((v >> 24) & 0xff) as u8,
        ((v >> 32) & 0xff) as u8,
        ((v >> 40) & 0xff) as u8,
        ((v >> 48) & 0xff) as u8,
        ((v >> 56) & 0xff) as u8,
    ]
}

/// The `u16` whose little-endian bytes are `b0, b1`.
pub open spec fn u16_from_le(b0: u8, b1: u8) -> u16 {
    (b0 as u16) | ((b1 as u16) << 8)
}

/// The `u32` whose little-endian bytes are `b0..b3`.
pub open spec fn u32_from_le(b0: u8, b1: u8, b2: u8, b3: u8) -> u32 {
    (b0 as u32) | ((b1 as u32) << 8) | ((b2 as u32) << 16) | ((b3 as u32) << 24)
}

/// The `u64` whose little-endian bytes are `b0..b7`.
pub open spec fn u64_from_le(b0: u8, b1: u8, b2: u8, b3: u8, b4: u8, b5: u8, b6: u8, b7: u8) -> u64 {
    (b0 as u64) | ((b1 as u64) << 8) | ((b2 as u64) << 16) | ((b3 as u64) << 24)
        | ((b4 as u64) << 32) | ((b5 as u64) << 40) | ((b6 as u64) << 48) | ((b7 as u64) << 56)
}

/// Reading back the little-endian bytes of a `u16` yields the value.
pub proof fn lemma_u16_le_round_trip(v: u16)
    ensures
        u16_from_le(u16_le(v)[0], u16_le(v)[1]) == v,
{
    assert(((v & 0xff) as u8 as u16) | ((((v >> 8) & 0xff) as u8 as u16) << 8) == v)
        by (bit_vector);
}

/// Reading back the little-endian bytes of a `u32` yields the value.
pub proof fn lemma_u32_le_round_trip(v: u32)
    ensures
        u32_from_le(u32_le(v)[0], u32_le(v)[1], u32_le(v)[2], u32_le(v)[3]) == v,
{
    assert(((v & 0xff) as u8 as u32)
        | ((((v >> 8) & 0xff) as u8 as u32) << 8)
        | ((((v >> 16) & 0xff) as u8 as u32) << 16)
        | ((((v >> 24) & 0xff) as u8 as u32) << 24) == v) by (bit_vector);
}

/// Reading back the little-endian bytes of a `u64` yields the value.
pub proof fn lemma_u64_le_round_trip(v: u64)
    ensures
        u64_from_le(
            u64_le(v)[0], u64_le(v)[1], u64_le(v)[2], u64_le(v)[3],
            u64_le(v)[4], u64_le(v)[5], u64_le(v)[6], u64_le(v)[7],
        ) == v,
{
    assert(((v & 0xff) as u8 as u64)
        | ((((v >> 8) & 0xff) as u8 as u64) << 8)
        | ((((v >> 16) & 0xff) as u8 as u64) << 16)
        | ((((v >> 24) & 0xff) as u8 as u64) << 24)
        | ((((v >> 32) & 0xff) as u8 as u64) << 32)
        | ((((v >> 40) & 0xff) as u8 as u64) << 40)
        | ((((v >> 48) & 0xff) as u8 as u64) << 48)
        | ((((v >> 56) & 0xff) as u8 as u64) << 56) == v) by (bit_vector);
}

// ---------------------------------------------------------------------
// Compact integers
// ---------------------------------------------------------------------

/// The compact encoding of a `u32`: the low two bits of the first byte
/// select the width (one, two, four, or one-plus-four bytes), the rest
/// carry the value, least significant first.
pub open spec fn compact_u32_enc(v: u32) -> Seq<u8> {
    if v < 0x40 {
        seq![(v << 2) as u8]
    } else if v < 0x4000 {
        u16_le((((v as u16) << 2) | 1) as u16)
    } else if v < 0x4000_0000 {
        u32_le((v << 2) | 2)
    } else {
        seq![3u8] + u32_le(v)
    }
}

/// The compact decoding of a byte sequence: the value read and the number
/// of bytes consumed, or the reason none could be read.
pub open spec fn compact_u32_dec(bytes: Seq<u8>) -> Result<(u32, int), DecodeError> {
    if bytes.len() == 0 {
        Err(DecodeError::Truncated)
    } else {
        let b0 = bytes[0];
        if b0 & 3 == 0 {
            Ok((((b0 >> 2) as u32), 1))
        } else if b0 & 3 == 1 {
            if bytes.len() < 2 {
                Err(DecodeError::Truncated)
            } else {
                Ok(((u16_from_le(b0, bytes[1]) >> 2) as u32, 2))
            }
        } else if b0 & 3 == 2 {
            if bytes.len() < 4 {
                Err(DecodeError::Truncated)
            } else {
                Ok((u32_from_le(b0, bytes[1], bytes[2], bytes[3]) >> 2, 4))
            }
        } else {
            // mode 3: the upper six bits give the payload width beyond four
            // bytes; this codec carries at most four.
            if b0 >> 2 != 0 {
                Err(DecodeError::CompactTooWide)
            } else if bytes.len() < 5 {
                Err(DecodeError::Truncated)
            } else {
                Ok((u32_from_le(bytes[1], bytes[2], bytes[3], bytes[4]), 5))
            }
        }
    }
}

/// Decoding a compact encoding, with anything after it, yields the value
/// back and consumes exactly the encoding.
pub proof fn lemma_compact_u32_round_trip(v: u32, rest: Seq<u8>)
    ensures
        compact_u32_dec(compact_u32_enc(v) + rest)
            == Ok::<(u32, int), DecodeError>((v, compact_u32_enc(v).len() as int)),
{
    let all = compact_u32_enc(v) + rest;
    if v < 0x40 {
        assert(((v << 2) as u8) & 3 == 0 && (((v << 2) as u8) >> 2) as u32 == v) by (bit_vector)
            requires v < 0x40;
        assert(all[0] == (v << 2) as u8);
    } else if v < 0x4000 {
        let w = (((v as u16) << 2) | 1) as u16;
        assert((w & 0xff) as u8 & 3 == 1
            && (((((w & 0xff) as u8 as u16) | ((((w >> 8) & 0xff) as u8 as u16) << 8)) >> 2) as u32) == v)
            by (bit_vector)
            requires w == (((v as u16) << 2) | 1) as u16 && 0x40 <= v < 0x4000;
        assert(all[0] == (w & 0xff) as u8 && all[1] == ((w >> 8) & 0xff) as u8);
    } else if v < 0x4000_0000 {
        let w = (v << 2) | 2;
        assert((w & 0xff) as u8 & 3 == 2
            && ((((w & 0xff) as u8 as u32)
                | ((((w >> 8) & 0xff) as u8 as u32) << 8)
                | ((((w >> 16) & 0xff) as u8 as u32) << 16)
                | ((((w >> 24) & 0xff) as u8 as u32) << 24)) >> 2) == v)
            by (bit_vector)
            requires w == (v << 2) | 2 && 0x4000 <= v < 0x4000_0000;
        assert(all[0] == (w & 0xff) as u8 && all[1] == ((w >> 8) & 0xff) as u8
            && all[2] == ((w >> 16) & 0xff) as u8 && all[3] == ((w >> 24) & 0xff) as u8);
    } else {
        assert(3u8 & 3 == 3 && 3u8 >> 2 == 0) by (bit_vector);
        lemma_u32_le_round_trip(v);
        assert(all[0] == 3u8 && all[1] == u32_le(v)[0] && all[2] == u32_le(v)[1]
            && all[3] == u32_le(v)[2] && all[4] == u32_le(v)[3]);
    }
}

// ---------------------------------------------------------------------
// Executable encoders and decoders for the scalar shapes
// ---------------------------------------------------------------------

/// Append the two little-endian bytes of `v`.
pub fn encode_u16_into(out: &mut Vec<u8>, v: u16)
    ensures
        final(out)@ == old(out)@ + u16_le(v),
{
    out.push((v & 0xff) as u8);
    out.push(((v >> 8) & 0xff) as u8);
    proof {
        assert(final(out)@ =~= old(out)@ + u16_le(v));
    }
}

/// Append the four little-endian bytes of `v`.
pub fn encode_u32_into(out: &mut Vec<u8>, v: u32)
    ensures
        final(out)@ == old(out)@ + u32_le(v),
{
    out.push((v & 0xff) as u8);
    out.push(((v >> 8) & 0xff) as u8);
    out.push(((v >> 16) & 0xff) as u8);
    out.push(((v >> 24) & 0xff) as u8);
    proof {
        assert(final(out)@ =~= old(out)@ + u32_le(v));
    }
}

/// Append the eight little-endian bytes of `v`.
pub fn encode_u64_into(out: &mut Vec<u8>, v: u64)
    ensures
        final(out)@ == old(out)@ + u64_le(v),
{
    out.push((v & 0xff) as u8);
    out.push(((v >> 8) & 0xff) as u8);
    out.push(((v >> 16) & 0xff) as u8);
    out.push(((v >> 24) & 0xff) as u8);
    out.push(((v >> 32) & 0xff) as u8);
    out.push(((v >> 40) & 0xff) as u8);
    out.push(((v >> 48) & 0xff) as u8);
    out.push(((v >> 56) & 0xff) as u8);
    proof {
        assert(final(out)@ =~= old(out)@ + u64_le(v));
    }
}

/// Append the compact encoding of `v`.
pub fn encode_compact_u32_into(out: &mut Vec<u8>, v: u32)
    ensures
        final(out)@ == old(out)@ + compact_u32_enc(v),
{
    if v < 0x40 {
        out.push((v << 2) as u8);
        proof {
            assert(final(out)@ =~= old(out)@ + compact_u32_enc(v));
        }
    } else if v < 0x4000 {
        encode_u16_into(out, ((v as u16) << 2) | 1);
    } else if v < 0x4000_0000 {
        encode_u32_into(out, (v << 2) | 2);
    } else {
        out.push(3u8);
        encode_u32_into(out, v);
        proof {
            assert(final(out)@ =~= old(out)@ + compact_u32_enc(v));
        }
    }
}

/// Read a compact integer from `bytes` starting at `pos`; on success the
/// result holds the value and the position just past it.
pub fn decode_compact_u32(bytes: &Vec<u8>, pos: usize) -> (r: Result<(u32, usize), DecodeError>)
    requires
        pos <= bytes@.len(),
    ensures
        match r {
            Ok((v, end)) => {
                &&& compact_u32_dec(bytes@.skip(pos as int)) == Ok::<(u32, int), DecodeError>((v, end - pos))
                &&& pos < end <= bytes@.len()
            },
            Err(e) => compact_u32_dec(bytes@.skip(pos as int)) == Err::<(u32, int), DecodeError>(e),
        },
{
    let ghost tail = bytes@.skip(pos as int);
    if pos >= bytes.len() {
        return Err(DecodeError::Truncated);
    }
    let b0 = bytes[pos];
    proof {
        assert(tail[0] == b0);
    }
    let mode = b0 & 3;
    if mode == 0 {
        Ok((((b0 >> 2) as u32), pos + 1))
    } else if mode == 1 {
        if bytes.len() - pos < 2 {
            return Err(DecodeError::Truncated);
        }
        let b1 = bytes[pos + 1];
        proof {
            assert(tail[1] == b1);
        }
        let w: u16 = (b0 as u16) | ((b1 as u16) << 8);
        Ok((((w >> 2) as u32), pos + 2))
    } else if mode == 2 {
        if bytes.len() - pos < 4 {
            return Err(DecodeError::Truncated);
        }
        let b1 = bytes[pos + 1];
        let b2 = bytes[pos + 2];
        let b3 = bytes[pos + 3];
        proof {
            assert(tail[1] == b1 && tail[2] == b2 && tail[3] == b3);
        }
        let w: u32 = (b0 as u32) | ((b1 as u32) << 8) | ((b2 as u32) << 16) | ((b3 as u32) << 24);
        Ok((w >> 2, pos + 4))
    } else {
        if (b0 >> 2) != 0 {
            return Err(DecodeError::CompactTooWide);
        }
        if bytes.len() - pos < 5 {
            return Err(DecodeError::Truncated);
        }
        let b1 = bytes[pos + 1];
        let b2 = bytes[pos + 2];
        let b3 = bytes[pos + 3];
        let b4 = bytes[pos + 4];
        proof {
            assert(tail[1] == b1 && tail[2] == b2 && tail[3] == b3 && tail[4] == b4);
        }
        let w: u32 = (b1 as u32) | ((b2 as u32) << 8) | ((b3 as u32) << 16) | ((b4 as u32) << 24);
        Ok((w, pos + 5))
    }
}

} // verus!

verus! {

// ---------------------------------------------------------------------
// Values and type descriptors
// ---------------------------------------------------------------------

/// A primitive wire value.
#[derive(Debug, Clone)]
pub enum Prim {
    /// One byte.
    U8(u8),
    /// Two little-endian bytes.
    U16(u16),
    /// Four little-endian bytes.
    U32(u32),
    /// Eight little-endian bytes.
    U64(u64),
    /// One byte, 0 or 1.
    Bool(bool),
    /// A compact (variable-length) integer.
    Compact(u32),
    /// A byte sequence with a compact length prefix.
    Bytes(Vec<u8>),
    /// A byte array whose length the type fixes; no prefix.
    Fixed(Vec<u8>),
}

/// The mathematical form of a primitive wire value.
pub enum PrimV {
    U8(u8),
    U16(u16),
    U32(u32),
    U64(u64),
    Bool(bool),
    Compact(u32),
    Bytes(Seq<u8>),
    Fixed(Seq<u8>),
}

impl View for Prim {
    type V = PrimV;

    open spec fn view(&self) -> PrimV {
        match self {
            Prim::U8(v) => PrimV::U8(*v),
            Prim::U16(v) => PrimV::U16(*v),
            Prim::U32(v) => PrimV::U32(*v),
            Prim::U64(v) => PrimV::U64(*v),
            Prim::Bool(v) => PrimV::Bool(*v),
            Prim::Compact(v) => PrimV::Compact(*v),
            Prim::Bytes(bs) => PrimV::Bytes(bs@),
            Prim::Fixed(bs) => PrimV::Fixed(bs@),
        }
    }
}

/// The type descriptor of a primitive wire value.
#[derive(Debug, Clone, Copy, PartialEq, Eq, Structural)]
pub enum PrimDesc {
    U8,
    U16,
    U32,
    U64,
    Bool,
    Compact,
    Bytes,
    /// A byte array of exactly this many bytes.
    Fixed(usize),
}

/// Whether a primitive value has the shape a descriptor declares.
pub open spec fn prim_matches(p: PrimV, d: PrimDesc) -> bool {
    match (p, d) {
        (PrimV::U8(_), PrimDesc::U8) => true,
        (PrimV::U16(_), PrimDesc::U16) => true,
        (PrimV::U32(_), PrimDesc::U32) => true,
        (PrimV::U64(_), PrimDesc::U64) => true,
        (PrimV::Bool(_), PrimDesc::Bool) => true,
        (PrimV::Compact(_), PrimDesc::Compact) => true,
        (PrimV::Bytes(bs), PrimDesc::Bytes) => bs.len() < 0x4000_0000,
        (PrimV::Fixed(bs), PrimDesc::Fixed(n)) => bs.len() == n,
        _ => false,
    }
}

/// The encoding of a primitive value.
pub open spec fn enc_prim(p: PrimV) -> Seq<u8> {
    match p {
        PrimV::U8(v) => seq![v],
        PrimV::U16(v) => u16_le(v),
        PrimV::U32(v) => u32_le(v),
        PrimV::U64(v) => u64_le(v),
        PrimV::Bool(b) => seq![if b { 1u8 } else { 0u8 }],
        PrimV::Compact(v) => compact_u32_enc(v),
        PrimV::Bytes(bs) => compact_u32_enc(bs.len() as u32) + bs,
        PrimV::Fixed(bs) => bs,
    }
}

/// The decoding of one primitive value from the front of `bytes`.
pub open spec fn dec_prim(bytes: Seq<u8>, d: PrimDesc) -> Result<(PrimV, int), DecodeError> {
    match d {
        PrimDesc::U8 => if bytes.len() < 1 {
            Err(DecodeError::Truncated)
        } else {
            Ok((PrimV::U8(bytes[0]), 1))
        },
        PrimDesc::U16 => if bytes.len() < 2 {
            Err(DecodeError::Truncated)
        } else {
            Ok((PrimV::U16(u16_from_le(bytes[0], bytes[1])), 2))
        },
        PrimDesc::U32 => if bytes.len() < 4 {
            Err(DecodeError::Truncated)
        } else {
            Ok((PrimV::U32(u32_from_le(bytes[0], bytes[1], bytes[2], bytes[3])), 4))
        },
        PrimDesc::U64 => if bytes.len() < 8 {
            Err(DecodeError::Truncated)
        } else {
            Ok((PrimV::U64(u64_from_le(
                bytes[0], bytes[1], bytes[2], bytes[3],
                bytes[4], bytes[5], bytes[6], bytes[7],
            )), 8))
        },
        PrimDesc::Bool => if bytes.len() < 1 {
            Err(DecodeError::Truncated)
        } else if bytes[0] == 0 {
            Ok((PrimV::Bool(false), 1))
        } else if bytes[0] == 1 {
            Ok((PrimV::Bool(true), 1))
        } else {
            Err(DecodeError::InvalidBool)
        },
        PrimDesc::Compact => match compact_u32_dec(bytes) {
            Ok((v, n)) => Ok((PrimV::Compact(v), n)),
            Err(e) => Err(e),
        },
        PrimDesc::Bytes => match compact_u32_dec(bytes) {
            Ok((l, n)) => if bytes.len() < n + l {
                Err(DecodeError::Truncated)
            } else {
                Ok((PrimV::Bytes(bytes.subrange(n, n + l)), n + l))
            },
            Err(e) => Err(e),
        },
        PrimDesc::Fixed(n) => if bytes.len() < n {
            Err(DecodeError::Truncated)
        } else {
            Ok((PrimV::Fixed(bytes.subrange(0, n as int)), n as int))
        },
    }
}

/// Decoding the encoding of a matching primitive, with anything after it,
/// yields the value back and consumes exactly the encoding.
pub proof fn lemma_prim_round_trip(p: PrimV, d: PrimDesc, rest: Seq<u8>)
    requires
        prim_matches(p, d),
    ensures
        dec_prim(enc_prim(p) + rest, d)
            == Ok::<(PrimV, int), DecodeError>((p, enc_prim(p).len() as int)),
{
    let all = enc_prim(p) + rest;
    match p {
        PrimV::U8(v) => {
            assert(all[0] == v);
        },
        PrimV::U16(v) => {
            assert(all[0] == u16_le(v)[0] && all[1] == u16_le(v)[1]);
            lemma_u16_le_round_trip(v);
        },
        PrimV::U32(v) => {
            assert(all[0] == u32_le(v)[0] && all[1] == u32_le(v)[1]
                && all[2] == u32_le(v)[2] && all[3] == u32_le(v)[3]);
            lemma_u32_le_round_trip(v);
        },
        PrimV::U64(v) => {
            assert(all[0] == u64_le(v)[0] && all[1] == u64_le(v)[1]
                && all[2] == u64_le(v)[2] && all[3] == u64_le(v)[3]
                && all[4] == u64_le(v)[4] && all[5] == u64_le(v)[5]
                && all[6] == u64_le(v)[6] && all[7] == u64_le(v)[7]);
            lemma_u64_le_round_trip(v);
        },
        PrimV::Bool(b) => {
            assert(all[0] == (if b { 1u8 } else { 0u8 }));
        },
        PrimV::Compact(v) => {
            lemma_compact_u32_round_trip(v, rest);
        },
        PrimV::Bytes(bs) => {
            let l = bs.len() as u32;
            lemma_compact_u32_round_trip(l, bs + rest);
            assert(compact_u32_enc(l) + (bs + rest) =~= all);
            let n = compact_u32_enc(l).len() as int;
            assert(all.subrange(n, n + l as int) =~= bs);
        },
        PrimV::Fixed(bs) => {
            assert(all.subrange(0, bs.len() as int) =~= bs);
        },
    }
}

} // verus!

verus! {

/// The views of a sequence of primitive values.
pub open spec fn prim_views(ps: Seq<Prim>) -> Seq<PrimV> {
    ps.map_values(|p: Prim| p@)
}

/// Whether a primitive value can be encoded at all (a byte sequence must
/// fit the compact length prefix).
pub open spec fn prim_valid(p: PrimV) -> bool {
    match p {
        PrimV::Bytes(bs) => bs.len() < 0x4000_0000,
        _ => true,
    }
}

/// Whether every primitive in a list can be encoded.
pub open spec fn prims_valid(ps: Seq<PrimV>) -> bool {
    forall|i: int| 0 <= i < ps.len() ==> prim_valid(#[trigger] ps[i])
}

/// Pointwise shape agreement between values and descriptors.
pub open spec fn prims_match(ps: Seq<PrimV>, ds: Seq<PrimDesc>) -> bool {
    &&& ps.len() == ds.len()
    &&& forall|i: int| 0 <= i < ps.len() ==> prim_matches(ps[i], ds[i])
}

/// The concatenated encoding of a list of primitive values.
pub open spec fn enc_prims(ps: Seq<PrimV>) -> Seq<u8>
    decreases ps.len(),
{
    if ps.len() == 0 {
        Seq::empty()
    } else {
        enc_prim(ps[0]) + enc_prims(ps.skip(1))
    }
}

/// The positional decoding of a list of primitive values, one per
/// descriptor.
pub open spec fn dec_prims(bytes: Seq<u8>, ds: Seq<PrimDesc>) -> Result<(Seq<PrimV>, int), DecodeError>
    decreases ds.len(),
{
    if ds.len() == 0 {
        Ok((Seq::<PrimV>::empty(), 0))
    } else {
        match dec_prim(bytes, ds[0]) {
            Ok((p, n)) => match dec_prims(bytes.skip(n), ds.skip(1)) {
                Ok((ps, m)) => Ok((seq![p] + ps, n + m)),
                Err(e) => Err(e),
            },
            Err(e) => Err(e),
        }
    }
}

/// Appending one value extends the concatenated encoding at the end.
pub proof fn lemma_enc_prims_push(ps: Seq<PrimV>, p: PrimV)
    ensures
        enc_prims(ps.push(p)) == enc_prims(ps) + enc_prim(p),
    decreases ps.len(),
{
    if ps.len() == 0 {
        assert(ps =~= Seq::<PrimV>::empty());
        assert(ps.push(p)[0] == p);
        assert(ps.push(p).skip(1) =~= Seq::<PrimV>::empty());
        assert(enc_prims(ps.push(p)) == enc_prim(p) + enc_prims(Seq::<PrimV>::empty()));
        assert(enc_prim(p) + enc_prims(Seq::<PrimV>::empty()) =~= enc_prims(ps) + enc_prim(p));
    } else {
        lemma_enc_prims_push(ps.skip(1), p);
        assert(ps.push(p)[0] == ps[0]);
        assert(ps.push(p).skip(1) =~= ps.skip(1).push(p));
        assert(enc_prims(ps.push(p))
            == enc_prim(ps[0]) + (enc_prims(ps.skip(1)) + enc_prim(p)));
        assert(enc_prim(ps[0]) + (enc_prims(ps.skip(1)) + enc_prim(p))
            =~= (enc_prim(ps[0]) + enc_prims(ps.skip(1))) + enc_prim(p));
    }
}

/// Decoding the concatenated encoding of matching values, with anything
/// after it, yields the values back and consumes exactly the encoding.
pub proof fn lemma_prims_round_trip(ps: Seq<PrimV>, ds: Seq<PrimDesc>, rest: Seq<u8>)
    requires
        prims_match(ps, ds),
    ensures
        dec_prims(enc_prims(ps) + rest, ds)
            == Ok::<(Seq<PrimV>, int), DecodeError>((ps, enc_prims(ps).len() as int)),
    decreases ps.len(),
{
    if ps.len() == 0 {
        assert(ps =~= Seq::<PrimV>::empty());
        assert(ds =~= Seq::<PrimDesc>::empty());
        assert(enc_prims(ps) + rest =~= rest);
    } else {
        let tail_enc = enc_prims(ps.skip(1)) + rest;
        lemma_prim_round_trip(ps[0], ds[0], tail_enc);
        let all = enc_prims(ps) + rest;
        assert(all =~= enc_prim(ps[0]) + tail_enc);
        let n = enc_prim(ps[0]).len() as int;
        assert(dec_prim(all, ds[0]) == Ok::<(PrimV, int), DecodeError>((ps[0], n)));
        assert(all.skip(n) =~= tail_enc);
        assert(prims_match(ps.skip(1), ds.skip(1)));
        lemma_prims_round_trip(ps.skip(1), ds.skip(1), rest);
        let m = enc_prims(ps.skip(1)).len() as int;
        assert(dec_prims(all.skip(n), ds.skip(1))
            == Ok::<(Seq<PrimV>, int), DecodeError>((ps.skip(1), m)));
        assert(dec_prims(all, ds)
            == Ok::<(Seq<PrimV>, int), DecodeError>((seq![ps[0]] + ps.skip(1), n + m)));
        assert(seq![ps[0]] + ps.skip(1) =~= ps);
        assert(enc_prims(ps).len() == n + m);
    }
}

// ---------------------------------------------------------------------
// Composite values and tagged unions
// ---------------------------------------------------------------------

/// A wire value: a primitive, a composite (fields in declaration order),
/// or a tagged union (one-byte discriminant, then that variant's fields).
#[derive(Debug, Clone)]
pub enum Value {
    Prim(Prim),
    Composite(Vec<Prim>),
    Union(u8, Vec<Prim>),
}

/// The mathematical form of a wire value.
pub enum ValueV {
    Prim(PrimV),
    Composite(Seq<PrimV>),
    Union(u8, Seq<PrimV>),
}

impl View for Value {
    type V = ValueV;

    open spec fn view(&self) -> ValueV {
        match self {
            Value::Prim(p) => ValueV::Prim(p@),
            Value::Composite(ps) => ValueV::Composite(prim_views(ps@)),
            Value::Union(tag, ps) => ValueV::Union(*tag, prim_views(ps@)),
        }
    }
}

/// The field descriptors of one union variant.
#[derive(Debug, Clone)]
pub struct VariantDesc {
    pub fields: Vec<PrimDesc>,
}

impl View for VariantDesc {
    type V = Seq<PrimDesc>;

    open spec fn view(&self) -> Seq<PrimDesc> {
        self.fields@
    }
}

/// The type descriptor of a wire value.
#[derive(Debug, Clone)]
pub enum TypeDesc {
    Prim(PrimDesc),
    Composite(Vec<PrimDesc>),
    Union(Vec<VariantDesc>),
}

/// The mathematical form of a type descriptor.
pub enum TypeDescV {
    Prim(PrimDesc),
    Composite(Seq<PrimDesc>),
    Union(Seq<Seq<PrimDesc>>),
}

impl View for TypeDesc {
    type V = TypeDescV;

    open spec fn view(&self) -> TypeDescV {
        match self {
            TypeDesc::Prim(d) => TypeDescV::Prim(*d),
            TypeDesc::Composite(ds) => TypeDescV::Composite(ds@),
            TypeDesc::Union(vs) => TypeDescV::Union(vs@.map_values(|v: VariantDesc| v@)),
        }
    }
}

/// Whether a value has the shape a descriptor declares.
pub open spec fn value_matches(v: ValueV, d: TypeDescV) -> bool {
    match (v, d) {
        (ValueV::Prim(p), TypeDescV::Prim(pd)) => prim_matches(p, pd),
        (ValueV::Composite(ps), TypeDescV::Composite(ds)) => prims_match(ps, ds),
        (ValueV::Union(tag, ps), TypeDescV::Union(vs)) => {
            &&& (tag as int) < vs.len()
            &&& prims_match(ps, vs[tag as int])
        },
        _ => false,
    }
}

/// Whether every primitive inside a value can be encoded.
pub open spec fn value_valid(v: ValueV) -> bool {
    match v {
        ValueV::Prim(p) => prim_valid(p),
        ValueV::Composite(ps) => prims_valid(ps),
        ValueV::Union(_, ps) => prims_valid(ps),
    }
}

/// The encoding of a wire value.
pub open spec fn enc_value(v: ValueV) -> Seq<u8> {
    match v {
        ValueV::Prim(p) => enc_prim(p),
        ValueV::Composite(ps) => enc_prims(ps),
        ValueV::Union(tag, ps) => seq![tag] + enc_prims(ps),
    }
}

/// The decoding of one wire value from the front of `bytes`.
pub open spec fn dec_value(bytes: Seq<u8>, d: TypeDescV) -> Result<(ValueV, int), DecodeError> {
    match d {
        TypeDescV::Prim(pd) => match dec_prim(bytes, pd) {
            Ok((p, n)) => Ok((ValueV::Prim(p), n)),
            Err(e) => Err(e),
        },
        TypeDescV::Composite(ds) => match dec_prims(bytes, ds) {
            Ok((ps, n)) => Ok((ValueV::Composite(ps), n)),
            Err(e) => Err(e),
        },
        TypeDescV::Union(vs) => if bytes.len() == 0 {
            Err(DecodeError::Truncated)
        } else if vs.len() <= bytes[0] as int {
            Err(DecodeError::InvalidDiscriminant)
        } else {
            match dec_prims(bytes.skip(1), vs[bytes[0] as int]) {
                Ok((ps, n)) => Ok((ValueV::Union(bytes[0], ps), 1 + n)),
                Err(e) => Err(e),
            }
        },
    }
}

/// Round trip: decoding the encoding of any value that matches its
/// descriptor, with anything after it, yields the value back and consumes
/// exactly the encoding.
pub proof fn lemma_value_round_trip(v: ValueV, d: TypeDescV, rest: Seq<u8>)
    requires
        value_matches(v, d),
    ensures
        dec_value(enc_value(v) + rest, d)
            == Ok::<(ValueV, int), DecodeError>((v, enc_value(v).len() as int)),
{
    match (v, d) {
        (ValueV::Prim(p), TypeDescV::Prim(pd)) => {
            lemma_prim_round_trip(p, pd, rest);
        },
        (ValueV::Composite(ps), TypeDescV::Composite(ds)) => {
            lemma_prims_round_trip(ps, ds, rest);
        },
        (ValueV::Union(tag, ps), TypeDescV::Union(vs)) => {
            let all = enc_value(v) + rest;
            assert(all[0] == tag);
            lemma_prims_round_trip(ps, vs[tag as int], rest);
            assert(all.skip(1) =~= enc_prims(ps) + rest);
        },
        _ => {},
    }
}

} // verus!

verus! {

// ---------------------------------------------------------------------
// Executable encoding and decoding of values
// ---------------------------------------------------------------------

/// Append all of `bs`.
pub fn append_bytes(out: &mut Vec<u8>, bs: &Vec<u8>)
    ensures
        final(out)@ == old(out)@ + bs@,
{
    let mut i: usize = 0;
    while i < bs.len()
        invariant
            i <= bs@.len(),
            out@ == old(out)@ + bs@.subrange(0, i as int),
        decreases bs@.len() - i,
    {
        out.push(bs[i]);
        i = i + 1;
        proof {
            assert(out@ =~= old(out)@ + bs@.subrange(0, i as int));
        }
    }
    proof {
        assert(bs@.subrange(0, bs@.len() as int) =~= bs@);
    }
}

/// Whether two byte strings hold the same bytes.
pub fn bytes_eq(a: &Vec<u8>, b: &Vec<u8>) -> (r: bool)
    ensures
        r == (a@ == b@),
{
    if a.len() != b.len() {
        proof {
            assert(a@.len() != b@.len());
        }
        return false;
    }
    let mut i: usize = 0;
    while i < a.len()
        invariant
            i <= a@.len(),
            a@.len() == b@.len(),
            forall|j: int| 0 <= j < i ==> a@[j] == b@[j],
        decreases a@.len() - i,
    {
        if a[i] != b[i] {
            return false;
        }
        i = i + 1;
    }
    proof {
        assert(a@ =~= b@);
    }
    true
}

/// The copy of `bytes[start..end]`.
pub fn copy_range(bytes: &Vec<u8>, start: usize, end: usize) -> (r: Vec<u8>)
    requires
        start <= end <= bytes@.len(),
    ensures
        r@ == bytes@.subrange(start as int, end as int),
{
    let mut out: Vec<u8> = Vec::new();
    let mut i: usize = start;
    while i < end
        invariant
            start <= i <= end <= bytes@.len(),
            out@ == bytes@.subrange(start as int, i as int),
        decreases end - i,
    {
        out.push(bytes[i]);
        i = i + 1;
        proof {
            assert(out@ =~= bytes@.subrange(start as int, i as int));
        }
    }
    out
}

/// Append the encoding of one primitive value.
pub fn encode_prim_into(out: &mut Vec<u8>, p: &Prim)
    requires
        prim_valid(p@),
    ensures
        final(out)@ == old(out)@ + enc_prim(p@),
{
    match p {
        Prim::U8(v) => {
            out.push(*v);
            proof {
                assert(final(out)@ =~= old(out)@ + enc_prim(p@));
            }
        },
        Prim::U16(v) => encode_u16_into(out, *v),
        Prim::U32(v) => encode_u32_into(out, *v),
        Prim::U64(v) => encode_u64_into(out, *v),
        Prim::Bool(b) => {
            out.push(if *b { 1u8 } else { 0u8 });
            proof {
                assert(final(out)@ =~= old(out)@ + enc_prim(p@));
            }
        },
        Prim::Compact(v) => encode_compact_u32_into(out, *v),
        Prim::Bytes(bs) => {
            encode_compact_u32_into(out, bs.len() as u32);
            append_bytes(out, bs);
            proof {
                assert(final(out)@ =~= old(out)@ + enc_prim(p@));
            }
        },
        Prim::Fixed(bs) => append_bytes(out, bs),
    }
}

/// Append the concatenated encoding of a list of primitive values.
pub fn encode_prims_into(out: &mut Vec<u8>, ps: &Vec<Prim>)
    requires
        prims_valid(prim_views(ps@)),
    ensures
        final(out)@ == old(out)@ + enc_prims(prim_views(ps@)),
{
    let mut i: usize = 0;
    while i < ps.len()
        invariant
            i <= ps@.len(),
            prims_valid(prim_views(ps@)),
            out@ == old(out)@ + enc_prims(prim_views(ps@).take(i as int)),
        decreases ps@.len() - i,
    {
        let ghost pre = prim_views(ps@).take(i as int);
        proof {
            assert(prim_views(ps@)[i as int] == ps@[i as int]@);
            assert(prim_valid(prim_views(ps@)[i as int]));
        }
        encode_prim_into(out, &ps[i]);
        i = i + 1;
        proof {
            lemma_enc_prims_push(pre, ps@[i - 1]@);
            assert(pre.push(ps@[i - 1]@) =~= prim_views(ps@).take(i as int));
            assert(out@ =~= old(out)@ + enc_prims(prim_views(ps@).take(i as int)));
        }
    }
    proof {
        assert(prim_views(ps@).take(ps@.len() as int) =~= prim_views(ps@));
    }
}

/// Encode a wire value; deterministic and total for every value whose
/// byte sequences fit the compact length prefix.
pub fn encode_value(v: &Value) -> (r: Vec<u8>)
    requires
        value_valid(v@),
    ensures
        r@ == enc_value(v@),
{
    let mut out: Vec<u8> = Vec::new();
    match v {
        Value::Prim(p) => {
            encode_prim_into(&mut out, p);
        },
        Value::Composite(ps) => {
            proof {
                assert(v@ == ValueV::Composite(prim_views(ps@)));
                assert(prims_valid(prim_views(ps@)));
            }
            encode_prims_into(&mut out, ps);
        },
        Value::Union(tag, ps) => {
            out.push(*tag);
            proof {
                assert(v@ == ValueV::Union(*tag, prim_views(ps@)));
                assert(prims_valid(prim_views(ps@)));
            }
            encode_prims_into(&mut out, ps);
            proof {
                assert(out@ =~= enc_value(v@));
            }
        },
    }
    out
}

/// Read one primitive value from `bytes` at `pos`; on success the result
/// holds the value and the position just past it.
pub fn decode_prim(bytes: &Vec<u8>, pos: usize, d: PrimDesc) -> (r: Result<(Prim, usize), DecodeError>)
    requires
        pos <= bytes@.len(),
    ensures
        match r {
            Ok((p, end)) => {
                &&& dec_prim(bytes@.skip(pos as int), d)
                    == Ok::<(PrimV, int), DecodeError>((p@, end - pos))
                &&& pos <= end <= bytes@.len()
            },
            Err(e) => dec_prim(bytes@.skip(pos as int), d) == Err::<(PrimV, int), DecodeError>(e),
        },
{
    let ghost tail = bytes@.skip(pos as int);
    match d {
        PrimDesc::U8 => {
            if bytes.len() - pos < 1 {
                return Err(DecodeError::Truncated);
            }
            let b0 = bytes[pos];
            proof {
                assert(tail[0] == b0);
            }
            Ok((Prim::U8(b0), pos + 1))
        },
        PrimDesc::U16 => {
            if bytes.len() - pos < 2 {
                return Err(DecodeError::Truncated);
            }
            let b0 = bytes[pos];
            let b1 = bytes[pos + 1];
            proof {
                assert(tail[0] == b0 && tail[1] == b1);
            }
            Ok((Prim::U16((b0 as u16) | ((b1 as u16) << 8)), pos + 2))
        },
        PrimDesc::U32 => {
            if bytes.len() - pos < 4 {
                return Err(DecodeError::Truncated);
            }
            let b0 = bytes[pos];
            let b1 = bytes[pos + 1];
            let b2 = bytes[pos + 2];
            let b3 = bytes[pos + 3];
            proof {
                assert(tail[0] == b0 && tail[1] == b1 && tail[2] == b2 && tail[3] == b3);
            }
            Ok((Prim::U32(
                (b0 as u32) | ((b1 as u32) << 8) | ((b2 as u32) << 16) | ((b3 as u32) << 24),
            ), pos + 4))
        },
        PrimDesc::U64 => {
            if bytes.len() - pos < 8 {
                return Err(DecodeError::Truncated);
            }
            let b0 = bytes[pos];
            let b1 = bytes[pos + 1];
            let b2 = bytes[pos + 2];
            let b3 = bytes[pos + 3];
            let b4 = bytes[pos + 4];
            let b5 = bytes[pos + 5];
            let b6 = bytes[pos + 6];
            let b7 = bytes[pos + 7];
            proof {
                assert(tail[0] == b0 && tail[1] == b1 && tail[2] == b2 && tail[3] == b3
                    && tail[4] == b4 && tail[5] == b5 && tail[6] == b6 && tail[7] == b7);
            }
            Ok((Prim::U64(
                (b0 as u64) | ((b1 as u64) << 8) | ((b2 as u64) << 16) | ((b3 as u64) << 24)
                    | ((b4 as u64) << 32) | ((b5 as u64) << 40) | ((b6 as u64) << 48)
                    | ((b7 as u64) << 56),
            ), pos + 8))
        },
        PrimDesc::Bool => {
            if bytes.len() - pos < 1 {
                return Err(DecodeError::Truncated);
            }
            let b0 = bytes[pos];
            proof {
                assert(tail[0] == b0);
            }
            if b0 == 0 {
                Ok((Prim::Bool(false), pos + 1))
            } else if b0 == 1 {
                Ok((Prim::Bool(true), pos + 1))
            } else {
                Err(DecodeError::InvalidBool)
            }
        },
        PrimDesc::Compact => {
            match decode_compact_u32(bytes, pos) {
                Ok((v, end)) => Ok((Prim::Compact(v), end)),
                Err(e) => Err(e),
            }
        },
        PrimDesc::Bytes => {
            match decode_compact_u32(bytes, pos) {
                Ok((l, mid)) => {
                    if bytes.len() - mid < l as usize {
                        proof {
                            assert(tail.len() < (mid - pos) + l);
                        }
                        return Err(DecodeError::Truncated);
                    }
                    let end = mid + l as usize;
                    let data = copy_range(bytes, mid, end);
                    proof {
                        assert(tail.subrange(mid - pos, (mid - pos) + l as int)
                            =~= bytes@.subrange(mid as int, end as int));
                    }
                    Ok((Prim::Bytes(data), end))
                },
                Err(e) => Err(e),
            }
        },
        PrimDesc::Fixed(n) => {
            if bytes.len() - pos < n {
                return Err(DecodeError::Truncated);
            }
            let end = pos + n;
            let data = copy_range(bytes, pos, end);
            proof {
                assert(tail.subrange(0, n as int)
                    =~= bytes@.subrange(pos as int, end as int));
            }
            Ok((Prim::Fixed(data), end))
        },
    }
}

} // verus!

verus! {

/// The result of decoding a list, shifted behind `pre` values and `off`
/// consumed bytes.
pub open spec fn dec_prims_prepend(
    pre: Seq<PrimV>,
    off: int,
    r: Result<(Seq<PrimV>, int), DecodeError>,
) -> Result<(Seq<PrimV>, int), DecodeError> {
    match r {
        Ok((ps, m)) => Ok((pre + ps, off + m)),
        Err(e) => Err(e),
    }
}

/// Shifting by nothing changes nothing.
pub proof fn lemma_prepend_empty(r: Result<(Seq<PrimV>, int), DecodeError>)
    ensures
        dec_prims_prepend(Seq::<PrimV>::empty(), 0, r) == r,
{
    match r {
        Ok((ps, m)) => {
            assert(Seq::<PrimV>::empty() + ps =~= ps);
        },
        Err(_) => {},
    }
}

/// Two shifts compose into one.
pub proof fn lemma_prepend_compose(
    pre: Seq<PrimV>,
    off: int,
    mid: Seq<PrimV>,
    n: int,
    r: Result<(Seq<PrimV>, int), DecodeError>,
)
    ensures
        dec_prims_prepend(pre, off, dec_prims_prepend(mid, n, r))
            == dec_prims_prepend(pre + mid, off + n, r),
{
    match r {
        Ok((ps, m)) => {
            assert(pre + (mid + ps) =~= (pre + mid) + ps);
        },
        Err(_) => {},
    }
}

/// Read one primitive per descriptor, positionally, from `bytes` at `pos`.
pub fn decode_prims(bytes: &Vec<u8>, pos: usize, ds: &Vec<PrimDesc>) -> (r: Result<(Vec<Prim>, usize), DecodeError>)
    requires
        pos <= bytes@.len(),
    ensures
        match r {
            Ok((ps, end)) => {
                &&& dec_prims(bytes@.skip(pos as int), ds@)
                    == Ok::<(Seq<PrimV>, int), DecodeError>((prim_views(ps@), end - pos))
                &&& pos <= end <= bytes@.len()
            },
            Err(e) => dec_prims(bytes@.skip(pos as int), ds@)
                == Err::<(Seq<PrimV>, int), DecodeError>(e),
        },
{
    let mut acc: Vec<Prim> = Vec::new();
    let mut cur: usize = pos;
    let mut i: usize = 0;
    proof {
        assert(ds@.skip(0) =~= ds@);
        assert(prim_views(acc@) =~= Seq::<PrimV>::empty());
        lemma_prepend_empty(dec_prims(bytes@.skip(pos as int), ds@));
    }
    while i < ds.len()
        invariant
            pos <= cur <= bytes@.len(),
            i <= ds@.len(),
            dec_prims(bytes@.skip(pos as int), ds@) == dec_prims_prepend(
                prim_views(acc@),
                cur - pos,
                dec_prims(bytes@.skip(cur as int), ds@.skip(i as int)),
            ),
        decreases ds@.len() - i,
    {
        let ghost pre_tail = bytes@.skip(cur as int);
        let ghost pre_ds = ds@.skip(i as int);
        proof {
            assert(pre_ds[0] == ds@[i as int]);
        }
        match decode_prim(bytes, cur, ds[i]) {
            Ok((p, end)) => {
                let ghost n = end - cur;
                let ghost pv = prim_views(acc@);
                proof {
                    assert(pre_tail.skip(n) =~= bytes@.skip(end as int));
                    assert(pre_ds.skip(1) =~= ds@.skip(i as int + 1));
                    let inner = dec_prims(bytes@.skip(end as int), ds@.skip(i as int + 1));
                    assert(dec_prims(pre_tail, pre_ds)
                        == dec_prims_prepend(seq![p@], n, inner));
                    lemma_prepend_compose(pv, cur - pos, seq![p@], n, inner);
                    assert(pv + seq![p@] =~= prim_views(acc@.push(p)));
                }
                acc.push(p);
                cur = end;
                i = i + 1;
            },
            Err(e) => {
                proof {
                    assert(dec_prims(pre_tail, pre_ds)
                        == Err::<(Seq<PrimV>, int), DecodeError>(e));
                }
                return Err(e);
            },
        }
    }
    proof {
        assert(ds@.skip(ds@.len() as int) =~= Seq::<PrimDesc>::empty());
        assert(dec_prims(bytes@.skip(cur as int), Seq::<PrimDesc>::empty())
            == Ok::<(Seq<PrimV>, int), DecodeError>((Seq::<PrimV>::empty(), 0)));
        assert(prim_views(acc@) + Seq::<PrimV>::empty() =~= prim_views(acc@));
    }
    Ok((acc, cur))
}

/// Decode one wire value against a descriptor, returning the value and
/// the position of the first byte after it; fails when the input is
/// truncated or a discriminant is out of range.
pub fn decode_value(bytes: &Vec<u8>, pos: usize, d: &TypeDesc) -> (r: Result<(Value, usize), DecodeError>)
    requires
        pos <= bytes@.len(),
    ensures
        match r {
            Ok((v, end)) => {
                &&& dec_value(bytes@.skip(pos as int), d@)
                    == Ok::<(ValueV, int), DecodeError>((v@, end - pos))
                &&& pos <= end <= bytes@.len()
            },
            Err(e) => dec_value(bytes@.skip(pos as int), d@)
                == Err::<(ValueV, int), DecodeError>(e),
        },
{
    match d {
        TypeDesc::Prim(pd) => {
            match decode_prim(bytes, pos, *pd) {
                Ok((p, end)) => Ok((Value::Prim(p), end)),
                Err(e) => Err(e),
            }
        },
        TypeDesc::Composite(ds) => {
            match decode_prims(bytes, pos, ds) {
                Ok((ps, end)) => Ok((Value::Composite(ps), end)),
                Err(e) => Err(e),
            }
        },
        TypeDesc::Union(vs) => {
            let ghost tail = bytes@.skip(pos as int);
            if bytes.len() - pos < 1 {
                return Err(DecodeError::Truncated);
            }
            let tag = bytes[pos];
            proof {
                assert(tail[0] == tag);
            }
            let ghost dv = vs@.map_values(|v: VariantDesc| v@);
            proof {
                assert(dv.len() == vs@.len());
            }
            if (tag as usize) >= vs.len() {
                return Err(DecodeError::InvalidDiscriminant);
            }
            proof {
                assert(dv[tag as int] == vs@[tag as int]@);
                assert(tail.skip(1) =~= bytes@.skip(pos as int + 1));
            }
            match decode_prims(bytes, pos + 1, &vs[tag as usize].fields) {
                Ok((ps, end)) => Ok((Value::Union(tag, ps), end)),
                Err(e) => Err(e),
            }
        },
    }
}

} // verus!

verus! {

/// Whether a primitive value has the shape a descriptor declares.
pub fn prim_matches_exec(p: &Prim, d: PrimDesc) -> (r: bool)
    ensures
        r == prim_matches(p@, d),
{
    match (p, d) {
        (Prim::U8(_), PrimDesc::U8) => true,
        (Prim::U16(_), PrimDesc::U16) => true,
        (Prim::U32(_), PrimDesc::U32) => true,
        (Prim::U64(_), PrimDesc::U64) => true,
        (Prim::Bool(_), PrimDesc::Bool) => true,
        (Prim::Compact(_), PrimDesc::Compact) => true,
        (Prim::Bytes(bs), PrimDesc::Bytes) => bs.len() < 0x4000_0000,
        (Prim::Fixed(bs), PrimDesc::Fixed(n)) => bs.len() == n,
        _ => false,
    }
}

/// Whether a list of values matches a list of descriptors, positionally.
pub fn prims_match_exec(ps: &Vec<Prim>, ds: &Vec<PrimDesc>) -> (r: bool)
    ensures
        r == prims_match(prim_views(ps@), ds@),
{
    if ps.len() != ds.len() {
        proof {
            assert(prim_views(ps@).len() == ps@.len());
        }
        return false;
    }
    let mut i: usize = 0;
    while i < ps.len()
        invariant
            i <= ps@.len(),
            ps@.len() == ds@.len(),
            forall|j: int| 0 <= j < i ==> prim_matches(#[trigger] prim_views(ps@)[j], ds@[j]),
        decreases ps@.len() - i,
    {
        if !prim_matches_exec(&ps[i], ds[i]) {
            proof {
                assert(prim_views(ps@)[i as int] == ps@[i as int]@);
                assert(!prim_matches(prim_views(ps@)[i as int], ds@[i as int]));
            }
            return false;
        }
        proof {
            assert(prim_views(ps@)[i as int] == ps@[i as int]@);
        }
        i = i + 1;
    }
    proof {
        assert(prim_views(ps@).len() == ps@.len());
    }
    true
}

} // verus!
