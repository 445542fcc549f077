//! Digests of instruction lists.

use vstd::prelude::*;
use crate::instruction::{Instruction, enc_list, encode_instructions};

verus! {

/// What BLAKE2b with a 32-byte output gives for `data`.
pub uninterp spec fn blake2b_256(data: Seq<u8>) -> Seq<u8>;

/// Relies on `blake2::Blake2b<U32>` through `Digest::digest`: the digest
/// depends on the bytes alone, and its output type holds 32 bytes.
#[verifier::external_body]
fn blake2b_256_digest(data: &Vec<u8>) -> (r: Vec<u8>)
    ensures
        r@ == blake2b_256(data@),
        r@.len() == 32,
{
    <blake2::Blake2b<blake2::digest::consts::U32> as blake2::Digest>::digest(data.as_slice()).to_vec()
}

/// The digest that keys a proposal of `instructions`.
pub open spec fn hash_of(instructions: Seq<Instruction>) -> Seq<u8> {
    blake2b_256(enc_list(instructions))
}

/// The digest of an instruction list: BLAKE2b-256 of its canonical encoding.
pub fn instructions_hash(instructions: &Vec<Instruction>) -> (r: Vec<u8>)
    ensures
        r@ == hash_of(instructions@),
        r@.len() == 32,
{
    blake2b_256_digest(&encode_instructions(instructions))
}

} // verus!
