//! Token estimation heuristics.
use crate::rounding::to_binary64;
use vstd::prelude::*;

verus! {

/// Approximate bytes-per-token ratio for JSON and English text.
///
/// A rough heuristic: exact counts need the tokenizer of the model.
pub const BYTES_PER_TOKEN: u64 = 4;

/// Estimated number of tokens in `bytes` bytes: the byte count as a binary64
/// number, divided by the bytes per token and rounded up.
pub open spec fn estimated_tokens(bytes: nat) -> nat {
    ((crate::rounding::nearest_binary64(bytes) + BYTES_PER_TOKEN - 1) / (BYTES_PER_TOKEN as int)) as nat
}

/// Estimate the token count of a text from its length in bytes.
pub fn estimate_tokens(bytes: usize) -> (tokens: usize)
    ensures
        tokens == estimated_tokens(bytes as nat),
{
    let v: u128 = to_binary64(bytes as u64);
    ((v + 3) / 4) as usize
}

/// Up to `2^53` bytes the estimate is the exact quotient, rounded up.
pub proof fn law_estimate_is_ceiling(bytes: nat)
    requires
        bytes <= 9_007_199_254_740_992,
    ensures
        4 * estimated_tokens(bytes) >= bytes,
        4 * (estimated_tokens(bytes) - 1) < bytes,
{
    crate::rounding::law_small_integers_are_exact(bytes);
}

/// More bytes never give a smaller estimate.
pub proof fn law_estimate_monotone(a: nat, b: nat)
    requires
        a <= b,
    ensures
        estimated_tokens(a) <= estimated_tokens(b),
{
    crate::rounding::law_nearest_binary64_monotone(a, b);
}

/// The estimate is the byte count, as the nearest binary64 number, over four and
/// rounded up.
pub proof fn law_estimate_rounds_up(bytes: nat)
    ensures
        4 * estimated_tokens(bytes) >= crate::rounding::nearest_binary64(bytes),
        4 * estimated_tokens(bytes) < crate::rounding::nearest_binary64(bytes) + 4,
{
}

} // verus!
