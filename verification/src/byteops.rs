//! Small helpers for reading and writing little-endian integers inside
//! byte buffers. The conversions themselves come from `vstd::bytes`.

use vstd::bytes::*;
use vstd::prelude::*;
use vstd::slice::slice_subrange;

verus! {

/// Read the little-endian `u64` stored at `idx`.
pub fn read_u64_at(data: &[u8], idx: usize) -> (r: u64)
    requires
        idx + 8 <= data@.len(),
    ensures
        r == spec_u64_from_le_bytes(data@.subrange(idx as int, idx as int + 8)),
{
    let n: usize = data.len();
    proof {
        assert(idx + 8 <= n);
    }
    let part = slice_subrange(data, idx, idx + 8);
    u64_from_le_bytes(part)
}

/// Overwrite the 8 bytes at `idx` with the little-endian form of `x`;
/// every byte outside that window keeps its value.
pub fn write_u64_at(data: &mut Vec<u8>, idx: usize, x: u64)
    requires
        idx + 8 <= old(data)@.len(),
    ensures
        final(data)@.len() == old(data)@.len(),
        final(data)@.subrange(idx as int, idx as int + 8) == spec_u64_to_le_bytes(x),
        forall|j: int|
            0 <= j < old(data)@.len() && !(idx <= j < idx + 8) ==> final(data)@[j] == old(
                data,
            )@[j],
{
    let bytes = u64_to_le_bytes(x);
    let n: usize = data.len();
    proof {
        assert(idx + 8 <= n);
    }
    let mut k: usize = 0;
    while k < 8
        invariant
            bytes@ == spec_u64_to_le_bytes(x),
            bytes@.len() == 8,
            0 <= k <= 8,
            idx + 8 <= data@.len(),
            data@.len() <= usize::MAX,
            data@.len() == old(data)@.len(),
            forall|j: int| 0 <= j < k ==> data@[idx + j] == bytes@[j],
            forall|j: int|
                0 <= j < old(data)@.len() && !(idx <= j < idx + k) ==> data@[j] == old(data)@[j],
        decreases 8 - k,
    {
        data[idx + k] = bytes[k];
        k = k + 1;
    }
    proof {
        assert(data@.subrange(idx as int, idx as int + 8) =~= spec_u64_to_le_bytes(x));
    }
}

/// Append the little-endian form of `x`.
pub fn push_u64_le(out: &mut Vec<u8>, x: u64)
    ensures
        final(out)@ == old(out)@ + spec_u64_to_le_bytes(x),
{
    let bytes = u64_to_le_bytes(x);
    let mut k: usize = 0;
    while k < 8
        invariant
            bytes@ == spec_u64_to_le_bytes(x),
            bytes@.len() == 8,
            0 <= k <= 8,
            out@ == old(out)@ + bytes@.take(k as int),
        decreases 8 - k,
    {
        proof {
            assert((old(out)@ + bytes@.take(k as int)).push(bytes@[k as int]) =~= old(out)@
                + bytes@.take(k as int + 1));
        }
        out.push(bytes[k]);
        k = k + 1;
    }
    proof {
        assert(bytes@.take(8) =~= bytes@);
    }
}

/// The all-zero byte row of length 8.
pub open spec fn zero8() -> Seq<u8> {
    Seq::new(8, |i: int| 0u8)
}

/// The all-ones byte row of length 8.
pub open spec fn ones8() -> Seq<u8> {
    Seq::new(8, |i: int| 0xffu8)
}

/// Zero encodes to eight zero bytes, and eight zero bytes decode to zero.
pub proof fn lemma_le_bytes_zero()
    ensures
        spec_u64_to_le_bytes(0) == zero8(),
        spec_u64_from_le_bytes(zero8()) == 0,
{
    lemma_auto_spec_u64_to_from_le_bytes();
    spec_u64_to_le_bytes_to_open(0);
    assert((0u64 & 0xff) as u8 == 0 && ((0u64 >> 8) & 0xff) as u8 == 0 && ((0u64 >> 16) & 0xff)
        as u8 == 0 && ((0u64 >> 24) & 0xff) as u8 == 0 && ((0u64 >> 32) & 0xff) as u8 == 0 && ((
    0u64 >> 40) & 0xff) as u8 == 0 && ((0u64 >> 48) & 0xff) as u8 == 0 && ((0u64 >> 56) & 0xff)
        as u8 == 0) by (bit_vector);
    assert(spec_u64_to_le_bytes_open(0) =~= zero8());
    assert(spec_u64_from_le_bytes(spec_u64_to_le_bytes(0)) == 0);
}

/// `u64::MAX` encodes to eight `0xff` bytes, and those decode back to it.
pub proof fn lemma_le_bytes_ones()
    ensures
        spec_u64_to_le_bytes(u64::MAX) == ones8(),
        spec_u64_from_le_bytes(ones8()) == u64::MAX,
{
    lemma_auto_spec_u64_to_from_le_bytes();
    spec_u64_to_le_bytes_to_open(u64::MAX);
    assert((0xffffffffffffffffu64 & 0xff) as u8 == 0xff && ((0xffffffffffffffffu64 >> 8) & 0xff)
        as u8 == 0xff && ((0xffffffffffffffffu64 >> 16) & 0xff) as u8 == 0xff && ((
    0xffffffffffffffffu64 >> 24) & 0xff) as u8 == 0xff && ((0xffffffffffffffffu64 >> 32) & 0xff)
        as u8 == 0xff && ((0xffffffffffffffffu64 >> 40) & 0xff) as u8 == 0xff && ((
    0xffffffffffffffffu64 >> 48) & 0xff) as u8 == 0xff && ((0xffffffffffffffffu64 >> 56) & 0xff)
        as u8 == 0xff) by (bit_vector);
    assert(spec_u64_to_le_bytes_open(u64::MAX) =~= ones8());
    assert(spec_u64_from_le_bytes(spec_u64_to_le_bytes(u64::MAX)) == u64::MAX);
}

} // verus!
