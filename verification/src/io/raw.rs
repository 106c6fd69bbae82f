//! The raw image file: the intensities of the voxels as 32-bit floats, each
//! as four bytes in little-endian order, with the x index counting slowest
//! and the z index fastest. The file holds nothing else.
//!
//! The library handles an intensity as the 32 bits of the float.

use vstd::prelude::*;
use vstd::bytes::{
    lemma_auto_spec_u32_to_from_le_bytes, spec_u32_from_le_bytes, spec_u32_to_le_bytes,
    u32_from_le_bytes, u32_to_le_bytes,
};
use vstd::slice::slice_subrange;
use crate::units::{BoxDim, Index, MAX_VOXELS};

verus! {

/// Place of voxel `i` in the file of an image of `n` voxels per axis,
/// counted in intensities from 0.
pub open spec fn spec_position(n: BoxDim, i: Index) -> int {
    (i.x * n.y + i.y) * n.z + i.z
}

/// Place of voxel `i` in the file of an image of `n` voxels per axis.
pub fn position(n: &BoxDim, i: &Index) -> (place: u64)
    requires
        n.x <= MAX_VOXELS,
        n.y <= MAX_VOXELS,
        n.z <= MAX_VOXELS,
        i.x < n.x,
        i.y < n.y,
        i.z < n.z,
    ensures
        place == spec_position(*n, *i),
        place < n.x * n.y * n.z,
{
    let (nx, ny, nz) = (n.x as u64, n.y as u64, n.z as u64);
    let (x, y, z) = (i.x as u64, i.y as u64, i.z as u64);
    assert(x * ny + y < nx * ny <= 2048 * 2048 && (x * ny + y) * nz + z < nx * ny * nz <= 2048
        * 2048 * 2048) by (nonlinear_arith)
        requires
            x < nx <= 2048,
            y < ny <= 2048,
            z < nz <= 2048,
    ;
    (x * ny + y) * nz + z
}

/// The bytes of a file that holds the intensities `words`.
pub open spec fn spec_encode(words: Seq<u32>) -> Seq<u8>
    decreases words.len(),
{
    if words.len() == 0 {
        Seq::empty()
    } else {
        spec_encode(words.drop_last()) + spec_u32_to_le_bytes(words.last())
    }
}

/// The intensities that a file of the given bytes holds; `None` for a file
/// that does not hold a whole number of intensities.
pub open spec fn spec_decode(bytes: Seq<u8>) -> Option<Seq<u32>>
    decreases bytes.len(),
{
    if bytes.len() == 0 {
        Some(Seq::empty())
    } else if bytes.len() < 4 {
        None
    } else {
        match spec_decode(bytes.subrange(0, bytes.len() - 4)) {
            None => None,
            Some(words) => Some(
                words.push(spec_u32_from_le_bytes(bytes.subrange(bytes.len() - 4, bytes.len() as int))),
            ),
        }
    }
}

/// A file holds four bytes for each intensity.
pub proof fn lemma_encode_len(words: Seq<u32>)
    ensures
        spec_encode(words).len() == 4 * words.len(),
    decreases words.len(),
{
    lemma_auto_spec_u32_to_from_le_bytes();
    if words.len() > 0 {
        lemma_encode_len(words.drop_last());
    }
}

/// Write, then read: reading the file of an image gives back every bit of
/// every intensity.
pub proof fn lemma_write_then_read(words: Seq<u32>)
    ensures
        spec_decode(spec_encode(words)) == Some(words),
    decreases words.len(),
{
    lemma_auto_spec_u32_to_from_le_bytes();
    if words.len() > 0 {
        let earlier = words.drop_last();
        let bytes = spec_encode(words);
        lemma_encode_len(earlier);
        lemma_write_then_read(earlier);
        assert(bytes.subrange(0, bytes.len() - 4) =~= spec_encode(earlier));
        assert(bytes.subrange(bytes.len() - 4, bytes.len() as int) =~= spec_u32_to_le_bytes(
            words.last(),
        ));
        assert(earlier.push(words.last()) =~= words);
    }
}

/// Read, then write: a file that can be read is the file of what was read
/// from it, and it holds a whole number of intensities.
pub proof fn lemma_read_then_write(bytes: Seq<u8>)
    ensures
        spec_decode(bytes) is Some <==> bytes.len() % 4 == 0,
        spec_decode(bytes) matches Some(words) ==> spec_encode(words) == bytes && 4 * words.len()
            == bytes.len(),
    decreases bytes.len(),
{
    lemma_auto_spec_u32_to_from_le_bytes();
    if bytes.len() >= 4 {
        let head = bytes.subrange(0, bytes.len() - 4);
        let tail = bytes.subrange(bytes.len() - 4, bytes.len() as int);
        lemma_read_then_write(head);
        if let Some(words) = spec_decode(head) {
            let all = words.push(spec_u32_from_le_bytes(tail));
            assert(all.drop_last() =~= words);
            assert(spec_encode(all) =~= head + tail);
            assert(head + tail =~= bytes);
        }
    }
}

/// The bytes of the file of an image with the intensities `words`.
pub fn encode(words: &Vec<u32>) -> (bytes: Vec<u8>)
    ensures
        bytes@ == spec_encode(words@),
        bytes@.len() == 4 * words@.len(),
{
    let mut bytes: Vec<u8> = Vec::new();
    let mut k: usize = 0;
    while k < words.len()
        invariant
            k <= words@.len(),
            bytes@ == spec_encode(words@.take(k as int)),
            bytes@.len() == 4 * k,
        decreases words@.len() - k,
    {
        let mut word = u32_to_le_bytes(words[k]);
        assert(words@.take(k + 1).drop_last() =~= words@.take(k as int));
        bytes.append(&mut word);
        k += 1;
    }
    assert(words@.take(k as int) =~= words@);
    bytes
}

/// The intensities that a file of the given bytes holds; `None` for a file
/// that does not hold a whole number of intensities.
pub fn decode(bytes: &Vec<u8>) -> (words: Option<Vec<u32>>)
    ensures
        words is Some <==> bytes@.len() % 4 == 0,
        match words {
            Some(w) => spec_decode(bytes@) == Some(w@),
            None => spec_decode(bytes@) is None,
        },
{
    proof {
        lemma_read_then_write(bytes@);
    }
    if bytes.len() % 4 != 0 {
        return None;
    }
    let mut words: Vec<u32> = Vec::new();
    let mut k: usize = 0;
    assert(bytes@.subrange(0, 0) =~= Seq::<u8>::empty());
    while k < bytes.len()
        invariant
            k <= bytes@.len(),
            k % 4 == 0,
            bytes@.len() % 4 == 0,
            spec_decode(bytes@.subrange(0, k as int)) == Some(words@),
        decreases bytes@.len() - k,
    {
        let word = u32_from_le_bytes(slice_subrange(bytes.as_slice(), k, k + 4));
        let ghost upto = bytes@.subrange(0, k + 4);
        assert(upto.subrange(0, upto.len() - 4) =~= bytes@.subrange(0, k as int));
        assert(upto.subrange(upto.len() - 4, upto.len() as int) =~= bytes@.subrange(
            k as int,
            k + 4,
        ));
        words.push(word);
        k += 4;
    }
    assert(bytes@.subrange(0, k as int) =~= bytes@);
    Some(words)
}

} // verus!
