//! The ledger's hash function.

use vstd::prelude::*;

verus! {

/// The longest message that the library hashes, in bytes.
pub const MAX_MESSAGE_LEN: usize = 1_048_576;

/// The SHA-256 digest of `data`, as the ledger's host computes it.
pub uninterp spec fn sha256_digest(data: Seq<u8>) -> Seq<u8>;

/// The SHA-256 digest of `data`.
///
/// This calls `Crypto::sha256` of `soroban_sdk` on a fresh host environment
/// and is believed, not proved: the result is the digest of the bytes
/// handed in, 32 bytes long, and the same for the same bytes. The host
/// meters its work, about 55 instructions for each byte hashed against a
/// budget of one hundred million for a fresh environment, and gives up
/// beyond it; a message of at most `MAX_MESSAGE_LEN` bytes stays well
/// within.
#[verifier::external_body]
pub(crate) fn sha256(data: &Vec<u8>) -> (digest: [u8; 32])
    requires
        data@.len() <= MAX_MESSAGE_LEN,
    ensures
        digest@ == sha256_digest(data@),
{
    let env = soroban_sdk::Env::default();
    let bytes = soroban_sdk::Bytes::from_slice(&env, data.as_slice());
    env.crypto().sha256(&bytes).to_array()
}

} // verus!
