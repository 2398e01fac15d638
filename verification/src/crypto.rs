//! Hashing and encoding performed by the Soroban host.

use vstd::prelude::*;

verus! {

/// The SHA-256 digest of `data`, as the Soroban host computes it.
pub uninterp spec fn sha256_digest(data: Seq<u8>) -> Seq<u8>;

/// Most bytes hashed in one call: one mebibyte. This is several times the
/// largest transaction the network accepts (132 096 bytes), so no preimage
/// that can reach a contract is refused. SHA-256 is charged about 55
/// instructions a byte against a fresh host's limit of 100 million, so
/// inputs up to this size (about 58 million) stay within the budget.
pub const MAX_HASH_INPUT_BYTES: usize = 1048576;

/// The XDR encoding of a 32-byte value (`BytesN<32>`) as an `ScVal`: the
/// `Bytes` tag 13, the length 32 as a big-endian 32-bit word, then the bytes
/// themselves (32 is a multiple of 4, so no padding follows).
pub open spec fn xdr_of_bytes32(value: Seq<u8>) -> Seq<u8> {
    seq![0u8, 0u8, 0u8, 13u8, 0u8, 0u8, 0u8, 32u8] + value
}

/// Hashes `data` with the Soroban host's SHA-256
/// (`soroban_sdk::crypto::Crypto::sha256`) on a fresh host. Claimed: the
/// digest is the function `sha256_digest` of the bytes hashed, nothing more.
/// Inputs are limited to `MAX_HASH_INPUT_BYTES`, well within the fresh
/// host's budget, so the call does not run out of budget and panic.
#[verifier::external_body]
pub(crate) fn sha256(data: &[u8]) -> (r: [u8; 32])
    requires
        data@.len() <= MAX_HASH_INPUT_BYTES,
    ensures
        r@ == sha256_digest(data@),
{
    let env = soroban_sdk::Env::default();
    let bytes = soroban_sdk::Bytes::from_slice(&env, data);
    env.crypto().sha256(&bytes).to_array()
}

/// The XDR encoding of a 32-byte value, as `soroban_sdk::xdr::ToXdr::to_xdr`
/// produces it for a `BytesN<32>`.
pub(crate) fn bytes32_to_xdr(value: &[u8; 32]) -> (r: Vec<u8>)
    ensures
        r@ == xdr_of_bytes32(value@),
{
    let mut out: Vec<u8> = vec![0u8, 0u8, 0u8, 13u8, 0u8, 0u8, 0u8, 32u8];
    let ghost head = out@;
    let mut i: usize = 0;
    while i < 32
        invariant
            0 <= i <= 32,
            head == seq![0u8, 0u8, 0u8, 13u8, 0u8, 0u8, 0u8, 32u8],
            out@ == head + value@.subrange(0, i as int),
        decreases 32 - i,
    {
        out.push(value[i]);
        i = i + 1;
        assert(out@ =~= head + value@.subrange(0, i as int));
    }
    assert(value@.subrange(0, 32) =~= value@);
    out
}

/// Two 32-byte arrays with the same bytes are the same array.
pub proof fn lemma_bytes32_view_injective(a: [u8; 32], b: [u8; 32])
    requires
        a@ == b@,
    ensures
        a == b,
{
    broadcast use vstd::array::group_array_axioms;
    assert forall|j: int| 0 <= j < 32 implies a[j] == b[j] by {
        assert(a@[j] == b@[j]);
    }
    assert(a =~= b);
}

} // verus!
