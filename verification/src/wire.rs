//! The wire buffer: the byte layout in which a smoothed stroke is returned to
//! the caller.
//!
//! Layout: a four-byte little-endian sample count, then every scalar as four
//! little-endian bytes, in `x, y, pressure` order per sample, in sequence
//! order. The byte length is always `4 + 12 * sample_count`, which is also the
//! size the caller must present when it releases the buffer.
use vstd::prelude::*;

use crate::chaikin::lemma_triple;
use crate::chaikin::sample_count;

verus! {

/// Byte `k` (0 = least significant) of the little-endian encoding of `v`.
pub open spec fn le_byte(v: u32, k: int) -> u8 {
    if k == 0 {
        (v & 0xff) as u8
    } else if k == 1 {
        ((v >> 8) & 0xff) as u8
    } else if k == 2 {
        ((v >> 16) & 0xff) as u8
    } else {
        ((v >> 24) & 0xff) as u8
    }
}

/// The value whose little-endian encoding is the four bytes `b0..b3`.
pub open spec fn u32_of_le(b0: u8, b1: u8, b2: u8, b3: u8) -> u32 {
    (b0 as u32) | ((b1 as u32) << 8) | ((b2 as u32) << 16) | ((b3 as u32) << 24)
}

/// The wire buffer for a scalar sequence: the sample count header, then each
/// scalar little-endian.
pub open spec fn wire_bytes(s: Seq<u32>) -> Seq<u8> {
    Seq::new(
        (4 + 4 * s.len()) as nat,
        |j: int|
            if j < 4 {
                le_byte(sample_count(s) as u32, j)
            } else {
                le_byte(s[(j - 4) / 4], (j - 4) % 4)
            },
    )
}

/// The sample count a wire buffer's header declares.
pub open spec fn wire_header(b: Seq<u8>) -> u32 {
    u32_of_le(b[0], b[1], b[2], b[3])
}

/// A byte sequence is a well-formed wire buffer when its length is exactly
/// the header plus the payload its header declares.
pub open spec fn wire_well_formed(b: Seq<u8>) -> bool {
    4 <= b.len() && b.len() == 4 + 12 * wire_header(b)
}

/// The scalars a well-formed wire buffer carries, in order.
pub open spec fn decoded_scalars(b: Seq<u8>) -> Seq<u32> {
    Seq::new(
        (3 * wire_header(b)) as nat,
        |i: int| u32_of_le(b[4 + 4 * i], b[4 + 4 * i + 1], b[4 + 4 * i + 2], b[4 + 4 * i + 3]),
    )
}

pub(crate) proof fn lemma_byte_index(i: int, k: int)
    by (nonlinear_arith)
    requires
        0 <= i,
        0 <= k < 4,
    ensures
        (4 * i + k) / 4 == i,
        (4 * i + k) % 4 == k,
{
}

proof fn lemma_le_round_trip(v: u32)
    ensures
        u32_of_le(le_byte(v, 0), le_byte(v, 1), le_byte(v, 2), le_byte(v, 3)) == v,
{
    assert((((v & 0xff) as u8) as u32) | (((((v >> 8) & 0xff) as u8) as u32) << 8) | (((((v
        >> 16) & 0xff) as u8) as u32) << 16) | (((((v >> 24) & 0xff) as u8) as u32) << 24)
        == v) by (bit_vector);
}

/// Appends the four little-endian bytes of `v`.
fn push_le32(bytes: &mut Vec<u8>, v: u32)
    requires
        old(bytes)@.len() + 4 <= usize::MAX,
    ensures
        final(bytes)@ == old(bytes)@ + seq![
            le_byte(v, 0),
            le_byte(v, 1),
            le_byte(v, 2),
            le_byte(v, 3),
        ],
{
    bytes.push((v & 0xff) as u8);
    bytes.push(((v >> 8) & 0xff) as u8);
    bytes.push(((v >> 16) & 0xff) as u8);
    bytes.push(((v >> 24) & 0xff) as u8);
    proof {
        assert(bytes@ =~= old(bytes)@ + seq![
            le_byte(v, 0),
            le_byte(v, 1),
            le_byte(v, 2),
            le_byte(v, 3),
        ]);
    }
}

/// Reads the little-endian value stored at `off`.
fn read_u32_le(bytes: &Vec<u8>, off: usize) -> (v: u32)
    requires
        off + 4 <= bytes@.len(),
    ensures
        v == u32_of_le(bytes@[off as int], bytes@[off + 1], bytes@[off + 2], bytes@[off + 3]),
{
    proof {
        assert(bytes@.len() == bytes.len());
    }
    (bytes[off] as u32) | ((bytes[off + 1] as u32) << 8) | ((bytes[off + 2] as u32) << 16) | (
    (bytes[off + 3] as u32) << 24)
}

/// Serializes a scalar sequence into a newly allocated wire buffer. The
/// buffer holds the sample count header followed by every scalar in order;
/// ownership of the result passes to the caller.
pub fn serialize_points(points: &Vec<u32>) -> (bytes: Vec<u8>)
    requires
        points@.len() % 3 == 0,
        sample_count(points@) <= u32::MAX,
        4 + 4 * points@.len() <= usize::MAX,
    ensures
        bytes@ == wire_bytes(points@),
        bytes@.len() == 4 + 4 * points@.len(),
{
    let count: u32 = (points.len() / 3) as u32;
    let mut bytes: Vec<u8> = Vec::new();
    push_le32(&mut bytes, count);
    proof {
        assert(bytes@ =~= wire_bytes(points@).take(4));
    }
    let mut i: usize = 0;
    while i < points.len()
        invariant
            points@.len() % 3 == 0,
            sample_count(points@) <= u32::MAX,
            4 + 4 * points@.len() <= usize::MAX,
            count == sample_count(points@) as u32,
            0 <= i <= points@.len(),
            bytes@ == wire_bytes(points@).take(4 + 4 * i),
        decreases points@.len() - i,
    {
        push_le32(&mut bytes, points[i]);
        proof {
            let s = points@;
            let w = wire_bytes(s);
            assert forall|k: int| 0 <= k < 4 implies w[4 + 4 * (i as int) + k] == le_byte(
                s[i as int],
                k,
            ) by {
                lemma_byte_index(i as int, k);
            }
            assert(w.take(4 + 4 * (i + 1)) =~= w.take(4 + 4 * (i as int)) + seq![
                le_byte(s[i as int], 0),
                le_byte(s[i as int], 1),
                le_byte(s[i as int], 2),
                le_byte(s[i as int], 3),
            ]);
        }
        i = i + 1;
    }
    proof {
        assert(bytes@ =~= wire_bytes(points@));
    }
    bytes
}

/// Decodes a wire buffer back into its scalar sequence: returns the carried
/// scalars exactly when the buffer is well formed, and nothing otherwise.
pub fn decode_wire(bytes: &Vec<u8>) -> (r: Option<Vec<u32>>)
    ensures
        match r {
            Some(v) => wire_well_formed(bytes@) && v@ == decoded_scalars(bytes@),
            None => !wire_well_formed(bytes@),
        },
{
    if bytes.len() < 4 {
        return None;
    }
    let cnt: u32 = read_u32_le(bytes, 0);
    assert(cnt == wire_header(bytes@));
    if bytes.len() as u64 != 4u64 + 12 * (cnt as u64) {
        return None;
    }
    let scalar_count: usize = (bytes.len() - 4) / 4;
    proof {
        assert((4 + 12 * (cnt as int) - 4) / 4 == 3 * (cnt as int)) by (nonlinear_arith);
    }
    let mut out: Vec<u32> = Vec::new();
    let mut i: usize = 0;
    while i < scalar_count
        invariant
            wire_well_formed(bytes@),
            scalar_count == 3 * wire_header(bytes@),
            bytes@.len() == 4 + 4 * scalar_count,
            bytes@.len() <= usize::MAX,
            0 <= i <= scalar_count,
            out@.len() == i,
            forall|q: int| 0 <= q < i ==> out@[q] == decoded_scalars(bytes@)[q],
        decreases scalar_count - i,
    {
        let v = read_u32_le(bytes, 4 + 4 * i);
        out.push(v);
        i = i + 1;
    }
    proof {
        assert(out@ =~= decoded_scalars(bytes@));
    }
    Some(out)
}

/// Round trip: decoding the wire buffer built from any whole-triplet scalar
/// sequence gives back exactly that sequence.
pub proof fn lemma_wire_round_trip(s: Seq<u32>)
    requires
        s.len() % 3 == 0,
        sample_count(s) <= u32::MAX,
    ensures
        wire_well_formed(wire_bytes(s)),
        decoded_scalars(wire_bytes(s)) == s,
{
    let w = wire_bytes(s);
    let cnt = sample_count(s) as u32;
    lemma_triple(s.len() as int);
    lemma_le_round_trip(cnt);
    assert(wire_header(w) == cnt);
    assert forall|i: int| 0 <= i < s.len() implies decoded_scalars(w)[i] == s[i] by {
        assert forall|k: int| 0 <= k < 4 implies w[4 + 4 * i + k] == le_byte(s[i], k) by {
            lemma_byte_index(i, k);
        }
        lemma_le_round_trip(s[i]);
    }
    assert(decoded_scalars(w) =~= s);
}

} // verus!
