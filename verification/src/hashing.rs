//! Keys for named scheduler entries.
//!
//! An approved proposal's enactment is scheduled under a name, so that the
//! same key can later address (and in principle cancel) the entry.  The key
//! is the Blake2b-256 digest of the encoded triple
//! `("assembly", "enactment", index)`.

use vstd::prelude::*;
use crate::codec::{encode_u32, spec_u32_le};
use crate::types::ReferendumIndex;

verus! {

/// What Blake2b-256 returns for given bytes.
pub uninterp spec fn blake2_256_of(data: Seq<u8>) -> [u8; 32];

/// Relies on `sp_io::hashing::blake2_256`: a pure 32-byte Blake2b digest,
/// a function of the input bytes alone.
#[verifier::external_body]
pub(crate) fn blake2_256(data: &Vec<u8>) -> (r: [u8; 32])
    ensures
        r == blake2_256_of(data@),
{
    sp_io::hashing::blake2_256(data.as_slice())
}

/// The encoded triple `("assembly", "enactment", index)`: eight raw name
/// bytes, the compact length `9` and nine text bytes, then the index in
/// little endian.
pub open spec fn spec_enactment_key_material(index: ReferendumIndex) -> Seq<u8> {
    seq![
        97u8, 115u8, 115u8, 101u8, 109u8, 98u8, 108u8, 121u8,
        36u8,
        101u8, 110u8, 97u8, 99u8, 116u8, 109u8, 101u8, 110u8, 116u8,
    ] + spec_u32_le(index)
}

/// The key under which referendum `index`'s enactment is scheduled.
pub open spec fn spec_enactment_key(index: ReferendumIndex) -> [u8; 32] {
    blake2_256_of(spec_enactment_key_material(index))
}

/// Compute the enactment key for a referendum.
pub fn enactment_key(index: ReferendumIndex) -> (r: [u8; 32])
    ensures
        r == spec_enactment_key(index),
{
    let mut data: Vec<u8> = Vec::new();
    data.push(97);
    data.push(115);
    data.push(115);
    data.push(101);
    data.push(109);
    data.push(98);
    data.push(108);
    data.push(121);
    data.push(36);
    data.push(101);
    data.push(110);
    data.push(97);
    data.push(99);
    data.push(116);
    data.push(109);
    data.push(101);
    data.push(110);
    data.push(116);
    encode_u32(&mut data, index);
    proof {
        assert(data@ =~= spec_enactment_key_material(index));
    }
    blake2_256(&data)
}

/// The raw bytes hashed for a referendum's enactment key; lets callers
/// outside the engine reproduce the key with their own hasher.
pub fn enactment_key_material(index: ReferendumIndex) -> (r: Vec<u8>)
    ensures
        r@ == spec_enactment_key_material(index),
{
    let mut data: Vec<u8> = Vec::new();
    data.push(97);
    data.push(115);
    data.push(115);
    data.push(101);
    data.push(109);
    data.push(98);
    data.push(108);
    data.push(121);
    data.push(36);
    data.push(101);
    data.push(110);
    data.push(97);
    data.push(99);
    data.push(116);
    data.push(109);
    data.push(101);
    data.push(110);
    data.push(116);
    encode_u32(&mut data, index);
    proof {
        assert(data@ =~= spec_enactment_key_material(index));
    }
    data
}

} // verus!
