//! Seed expansion: the mixing function that turns one 64-bit seed into the
//! four initial state words, and the facts that hold of it.

use vstd::prelude::*;
use vstd::wrapping::u64_specs::wrapping_mul;

verus! {

/// First multiplier of the mixing function.
pub const MIX_FIRST: u64 = 0xBF58476D1CE4E5B9;

/// Second multiplier of the mixing function.
pub const MIX_SECOND: u64 = 0x94D049BB133111EB;

/// One round of mixing: xor-shift by 30, multiply, xor-shift by 27,
/// multiply, xor-shift by 31, all modulo 2^64.
pub open spec fn mix(s: u64) -> u64 {
    let a = s ^ (s >> 30);
    let b = wrapping_mul(a, MIX_FIRST);
    let c = b ^ (b >> 27);
    let d = wrapping_mul(c, MIX_SECOND);
    d ^ (d >> 31)
}

/// The seed mixed `n` times in a row.
pub open spec fn mix_iter(seed: u64, n: nat) -> u64
    decreases n,
{
    if n == 0 {
        seed
    } else {
        mix(mix_iter(seed, (n - 1) as nat))
    }
}

/// The four state words that a seed expands to: word `i` is the seed mixed
/// `i + 1` times.
pub open spec fn initial_state(seed: u64) -> Seq<u64> {
    Seq::new(4, |i: int| mix_iter(seed, (i + 1) as nat))
}

/// Multiplying by either multiplier modulo 2^64 can be undone by multiplying
/// by its inverse modulo 2^64, so it never sends two words to one.
proof fn lemma_multiply_one_to_one(a: u64, b: u64)
    ensures
        wrapping_mul(a, MIX_FIRST) == wrapping_mul(b, MIX_FIRST) ==> a == b,
        wrapping_mul(a, MIX_SECOND) == wrapping_mul(b, MIX_SECOND) ==> a == b,
{
    assert(wrapping_mul(wrapping_mul(a, 0xBF58476D1CE4E5B9), 0x96DE1B173F119089) == a)
        by (bit_vector);
    assert(wrapping_mul(wrapping_mul(b, 0xBF58476D1CE4E5B9), 0x96DE1B173F119089) == b)
        by (bit_vector);
    assert(wrapping_mul(wrapping_mul(a, 0x94D049BB133111EB), 0x319642B2D24D8EC3) == a)
        by (bit_vector);
    assert(wrapping_mul(wrapping_mul(b, 0x94D049BB133111EB), 0x319642B2D24D8EC3) == b)
        by (bit_vector);
}

/// A word xored with itself shifted right determines the word.
proof fn lemma_xor_shift_one_to_one(a: u64, b: u64)
    ensures
        a ^ (a >> 30) == b ^ (b >> 30) ==> a == b,
        a ^ (a >> 27) == b ^ (b >> 27) ==> a == b,
        a ^ (a >> 31) == b ^ (b >> 31) ==> a == b,
{
    assert(a ^ (a >> 30) == b ^ (b >> 30) ==> a == b) by (bit_vector);
    assert(a ^ (a >> 27) == b ^ (b >> 27) ==> a == b) by (bit_vector);
    assert(a ^ (a >> 31) == b ^ (b >> 31) ==> a == b) by (bit_vector);
}

/// Mixing is one-to-one: two words that mix to the same word are equal.
pub proof fn lemma_mix_one_to_one(a: u64, b: u64)
    requires
        mix(a) == mix(b),
    ensures
        a == b,
{
    let a1 = a ^ (a >> 30);
    let b1 = b ^ (b >> 30);
    let a2 = wrapping_mul(a1, MIX_FIRST);
    let b2 = wrapping_mul(b1, MIX_FIRST);
    let a3 = a2 ^ (a2 >> 27);
    let b3 = b2 ^ (b2 >> 27);
    let a4 = wrapping_mul(a3, MIX_SECOND);
    let b4 = wrapping_mul(b3, MIX_SECOND);
    lemma_xor_shift_one_to_one(a4, b4);
    lemma_multiply_one_to_one(a3, b3);
    lemma_xor_shift_one_to_one(a2, b2);
    lemma_multiply_one_to_one(a1, b1);
    lemma_xor_shift_one_to_one(a, b);
}

/// Mixing sends zero to zero.
pub proof fn lemma_mix_zero()
    ensures
        mix(0) == 0,
{
    assert(0u64 ^ (0u64 >> 30) == 0) by (bit_vector);
    assert(0u64 ^ (0u64 >> 27) == 0) by (bit_vector);
    assert(0u64 ^ (0u64 >> 31) == 0) by (bit_vector);
}

/// Mixing any number of times is one-to-one as well.
pub proof fn lemma_mix_iter_one_to_one(a: u64, b: u64, n: nat)
    requires
        mix_iter(a, n) == mix_iter(b, n),
    ensures
        a == b,
    decreases n,
{
    if n > 0 {
        lemma_mix_one_to_one(mix_iter(a, (n - 1) as nat), mix_iter(b, (n - 1) as nat));
        lemma_mix_iter_one_to_one(a, b, (n - 1) as nat);
    }
}

/// Mixing zero any number of times gives zero.
pub proof fn lemma_mix_iter_zero(n: nat)
    ensures
        mix_iter(0, n) == 0,
    decreases n,
{
    if n > 0 {
        lemma_mix_iter_zero((n - 1) as nat);
        lemma_mix_zero();
    }
}

/// Seed sensitivity: two different seeds expand to two different states.
/// More than that, the two states differ in every one of the four words.
pub proof fn lemma_distinct_seeds_distinct_states(s1: u64, s2: u64)
    requires
        s1 != s2,
    ensures
        initial_state(s1) != initial_state(s2),
        forall|i: int| 0 <= i < 4 ==> initial_state(s1)[i] != initial_state(s2)[i],
{
    assert forall|i: int| 0 <= i < 4 implies initial_state(s1)[i] != initial_state(s2)[i] by {
        if mix_iter(s1, (i + 1) as nat) == mix_iter(s2, (i + 1) as nat) {
            lemma_mix_iter_one_to_one(s1, s2, (i + 1) as nat);
        }
    }
    assert(initial_state(s1)[0] != initial_state(s2)[0]);
}

/// A word of the initial state is zero exactly when the seed is zero: the
/// seed zero expands to the all-zero state, and every other seed to a state
/// without a zero word.
pub proof fn lemma_zero_word_iff_zero_seed(seed: u64, i: int)
    requires
        0 <= i < 4,
    ensures
        initial_state(seed)[i] == 0 <==> seed == 0,
{
    lemma_mix_iter_zero((i + 1) as nat);
    if mix_iter(seed, (i + 1) as nat) == 0 {
        lemma_mix_iter_one_to_one(seed, 0, (i + 1) as nat);
    }
}

} // verus!
