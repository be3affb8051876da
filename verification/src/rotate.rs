//! Left rotation of a 64-bit word.

use vstd::prelude::*;

verus! {

/// The word `x` rotated left by `k` positions: the bits shifted out at the
/// top come back in at the bottom. Meant for `0 < k < 64`.
pub open spec fn rotl_spec(x: u64, k: u32) -> u64
    recommends
        0 < k < 64,
{
    (x << k) | (x >> ((64 - k) as u32))
}

/// Rotates `x` left by `k` positions. The amount must lie strictly between
/// 0 and 64: a shift by the full width has no meaning.
pub fn rotl(x: u64, k: u32) -> (r: u64)
    requires
        0 < k < 64,
    ensures
        r == rotl_spec(x, k),
{
    (x << k) | (x >> (64 - k))
}

/// Rotating left by `k` and then by `64 - k` gives the word back, for every
/// word and every amount from 1 to 63.
pub proof fn lemma_rotl_round_trip(x: u64, k: u32)
    requires
        1 <= k <= 63,
    ensures
        rotl_spec(rotl_spec(x, k), (64 - k) as u32) == x,
{
    assert(rotl_spec(rotl_spec(x, k), (64 - k) as u32) == x) by (bit_vector)
        requires
            1 <= k <= 63,
    ;
}

/// Rotation moves bits in a circle: bit `i` of `x` is bit `i + k`, taken
/// modulo 64, of `x` rotated left by `k`.
pub proof fn lemma_rotl_moves_bits(x: u64, k: u32, i: u32)
    requires
        0 < k < 64,
        i < 64,
    ensures
        (rotl_spec(x, k) >> (((i + k) % 64) as u32)) & 1 == (x >> i) & 1,
{
    assert((rotl_spec(x, k) >> (((i + k) % 64) as u32)) & 1 == (x >> i) & 1) by (bit_vector)
        requires
            0 < k < 64,
            i < 64,
    ;
}

} // verus!
