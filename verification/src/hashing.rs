use vstd::prelude::*;

verus! {

/// The SHA-256 digest that the swap program's hasher gives for a message.
pub uninterp spec fn hashv_digest(message: Seq<u8>) -> Seq<u8>;

/// The SHA-256 digest that the lock escrow's host gives for a message.
pub uninterp spec fn sha256_digest(message: Seq<u8>) -> Seq<u8>;

/// Calls `solana_sha256_hasher::hashv` on the one slice `message`. Off chain
/// that function feeds its slices to a SHA-256 hasher and returns the 32
/// bytes of the digest, so the result depends on the message alone.
#[verifier::external_body]
pub(crate) fn hashv(message: &[u8]) -> (r: [u8; 32])
    ensures
        r@ == hashv_digest(message@),
{
    solana_sha256_hasher::hashv(&[message]).to_bytes()
}

/// The longest message that `sha256` takes: one mebibyte.
pub const SHA256_MAX_LEN: usize = 1_048_576;

/// Calls `soroban_sdk::crypto::Crypto::sha256` of a fresh host environment on
/// a copy of `message`. That method returns the 32 bytes of the SHA-256
/// digest, so the result depends on the message alone. The host meters the
/// call against a budget of 100,000,000 instructions, of which hashing takes
/// under 55 for each byte and copying under 1, and panics once the budget is
/// spent; `requires` keeps the message well within it.
#[verifier::external_body]
pub(crate) fn sha256(message: &[u8]) -> (r: [u8; 32])
    requires
        message@.len() <= SHA256_MAX_LEN,
    ensures
        r@ == sha256_digest(message@),
{
    let env = soroban_sdk::Env::default();
    let data = soroban_sdk::Bytes::from_slice(&env, message);
    env.crypto().sha256(&data).to_array()
}

} // verus!
