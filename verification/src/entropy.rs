//! Where a draw comes from: a snapshot of the surroundings, a seed, and a
//! 128-bit BLAKE2 digest over both.

use vstd::prelude::*;
use crate::history::Draw;

verus! {

/// What the host reports at the moment of a draw. The values are taken as
/// they come; none is validated or bounded.
#[derive(Clone, Copy, Debug, PartialEq, Eq)]
pub struct Entropy {
    /// The current block's timestamp.
    pub timestamp: u64,
    /// The current block's height.
    pub block_number: u32,
    /// The balance that the service holds.
    pub balance: u128,
    /// What is left of the call's execution budget.
    pub gas_left: u64,
    /// The hash that identifies the service's own code.
    pub code_hash: [u8; 32],
}

/// The 128-bit BLAKE2 digest of the SCALE encoding of the tuple
/// `(timestamp, block_number, balance, gas_left, code_hash, seed)`, the
/// fields in this order.
pub uninterp spec fn blake2x128_encoded(
    timestamp: u64,
    block_number: u32,
    balance: u128,
    gas_left: u64,
    code_hash: Seq<u8>,
    seed: Seq<u8>,
) -> Seq<u8>;

/// Whether `value` is the draw that `entropy` and `seed` determine.
pub open spec fn is_draw(value: Draw, entropy: Entropy, seed: Draw) -> bool {
    value@ == blake2x128_encoded(
        entropy.timestamp,
        entropy.block_number,
        entropy.balance,
        entropy.gas_left,
        entropy.code_hash@,
        seed@,
    )
}

/// Calls `ink::env::hash_encoded` with the `Blake2x128` hasher on the tuple
/// `(timestamp, block_number, balance, gas_left, code_hash, seed)`, the code
/// hash as an `ink::primitives::Hash`. Trusted: the 16 bytes that come back
/// are the digest that `blake2x128_encoded` names, a function of the six
/// values alone.
#[verifier::external_body]
fn hash_encoded_blake2x128(
    timestamp: u64,
    block_number: u32,
    balance: u128,
    gas_left: u64,
    code_hash: &[u8; 32],
    seed: &[u8; 16],
) -> (digest: [u8; 16])
    ensures
        digest@ == blake2x128_encoded(
            timestamp,
            block_number,
            balance,
            gas_left,
            code_hash@,
            seed@,
        ),
{
    let code = ink::primitives::Hash::from(*code_hash);
    let mut digest = [0u8; 16];
    ink::env::hash_encoded::<ink::env::hash::Blake2x128, _>(
        &(timestamp, block_number, balance, gas_left, code, *seed),
        &mut digest,
    );
    digest
}

/// Derives the draw for `seed` under `entropy`.
pub fn draw_value(entropy: &Entropy, seed: &Draw) -> (value: Draw)
    ensures
        is_draw(value, *entropy, *seed),
{
    hash_encoded_blake2x128(
        entropy.timestamp,
        entropy.block_number,
        entropy.balance,
        entropy.gas_left,
        &entropy.code_hash,
        seed,
    )
}

/// A draw is a function of the snapshot and the seed: the same snapshot and
/// the same seed never give two different values.
pub proof fn lemma_draw_deterministic(first: Draw, second: Draw, entropy: Entropy, seed: Draw)
    requires
        is_draw(first, entropy, seed),
        is_draw(second, entropy, seed),
    ensures
        first == second,
{
    assert(first@ == second@);
    assert(first =~= second);
}

} // verus!
