//! The SHA3 proof-of-work hash of a block header.
use vstd::prelude::*;

use crate::pow::{pow_bytes, ProofOfWork};

verus! {

/// The fields of a block header that its proof-of-work hash covers, as
/// plain values: hashes, Merkle roots and offsets as their bytes, the
/// timestamp in seconds.
#[derive(Debug, Clone)]
pub struct BlockHeader {
    pub version: u16,
    pub height: u64,
    pub prev_hash: Vec<u8>,
    pub timestamp: u64,
    pub input_mr: Vec<u8>,
    pub output_mr: Vec<u8>,
    pub output_mmr_size: u64,
    pub witness_mr: Vec<u8>,
    pub kernel_mr: Vec<u8>,
    pub kernel_mmr_size: u64,
    pub total_kernel_offset: Vec<u8>,
    pub total_script_offset: Vec<u8>,
    pub nonce: u64,
    pub pow: ProofOfWork,
}

/// The `k` little-endian bytes of `v`.
pub open spec fn le_bytes(v: nat, k: nat) -> Seq<u8>
    decreases k,
{
    if k == 0 {
        Seq::empty()
    } else {
        seq![(v % 256) as u8] + le_bytes(v / 256, (k - 1) as nat)
    }
}

/// The bytes of a header that its proof-of-work hash is taken over, in
/// order: version, height, previous hash, timestamp, input, output and
/// witness roots with the output MMR size, kernel root and MMR size, the
/// two offsets, the nonce and the proof of work.
pub open spec fn header_pow_bytes(h: BlockHeader) -> Seq<u8> {
    le_bytes(h.version as nat, 2) + le_bytes(h.height as nat, 8) + h.prev_hash@ + le_bytes(h.timestamp as nat, 8)
        + h.input_mr@ + h.output_mr@ + le_bytes(h.output_mmr_size as nat, 8) + h.witness_mr@ + h.kernel_mr@
        + le_bytes(h.kernel_mmr_size as nat, 8) + h.total_kernel_offset@ + h.total_script_offset@ + le_bytes(
        h.nonce as nat,
        8,
    ) + pow_bytes(h.pow.pow_algo, h.pow.pow_data@)
}

/// The SHA3-256 digest of `b`.
pub uninterp spec fn sha3_256_digest(b: Seq<u8>) -> Seq<u8>;

/// Relies on `sha3::Sha3_256::digest`: the digest depends on the bytes
/// alone and is 32 bytes long.
#[verifier::external_body]
fn sha3_256(b: &[u8]) -> (r: Vec<u8>)
    ensures
        r@ == sha3_256_digest(b@),
        r@.len() == 32,
{
    <sha3::Sha3_256 as sha3::Digest>::digest(b).to_vec()
}

/// Appends the `k` little-endian bytes of `v`.
fn push_le(v: u64, k: usize, out: &mut Vec<u8>)
    ensures
        final(out)@ == old(out)@ + le_bytes(v as nat, k as nat),
    decreases k,
{
    if k == 0 {
        assert(out@ =~= old(out)@ + le_bytes(v as nat, 0));
    } else {
        out.push((v % 256) as u8);
        push_le(v / 256, k - 1, out);
        assert(out@ =~= old(out)@ + le_bytes(v as nat, k as nat));
    }
}

/// Appends the bytes of `b`.
fn push_bytes(b: &Vec<u8>, out: &mut Vec<u8>)
    ensures
        final(out)@ == old(out)@ + b@,
{
    out.extend_from_slice(b.as_slice());
    assert(out@ =~= old(out)@ + b@);
}

/// The bytes of `header` that its proof-of-work hash covers.
pub fn header_hash_input(header: &BlockHeader) -> (r: Vec<u8>)
    ensures
        r@ == header_pow_bytes(*header),
{
    let mut out: Vec<u8> = Vec::new();
    push_le(header.version as u64, 2, &mut out);
    push_le(header.height, 8, &mut out);
    push_bytes(&header.prev_hash, &mut out);
    push_le(header.timestamp, 8, &mut out);
    push_bytes(&header.input_mr, &mut out);
    push_bytes(&header.output_mr, &mut out);
    push_le(header.output_mmr_size, 8, &mut out);
    push_bytes(&header.witness_mr, &mut out);
    push_bytes(&header.kernel_mr, &mut out);
    push_le(header.kernel_mmr_size, 8, &mut out);
    push_bytes(&header.total_kernel_offset, &mut out);
    push_bytes(&header.total_script_offset, &mut out);
    push_le(header.nonce, 8, &mut out);
    let pow = header.pow.to_bytes();
    push_bytes(&pow, &mut out);
    assert(out@ =~= header_pow_bytes(*header));
    out
}

/// The SHA3-256 hash of the header fields that the proof of work covers.
pub fn sha3_hash(header: &BlockHeader) -> (r: Vec<u8>)
    ensures
        r@ == sha3_256_digest(header_pow_bytes(*header)),
        r@.len() == 32,
{
    let input = header_hash_input(header);
    sha3_256(input.as_slice())
}

} // verus!
