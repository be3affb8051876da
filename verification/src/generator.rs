//! The generator: a state of four 64-bit words, seeded once and advanced by
//! every output it gives.

use vstd::prelude::*;
use vstd::wrapping::u64_specs::wrapping_mul;
use crate::rotate::{lemma_rotl_round_trip, rotl, rotl_spec};
use crate::seeding::{
    initial_state, lemma_distinct_seeds_distinct_states, mix_iter, MIX_FIRST, MIX_SECOND,
};

verus! {

/// The output that a state gives: its second word times 5, rotated left by
/// 7, times 9, all modulo 2^64.
pub open spec fn output(s: Seq<u64>) -> u64
    recommends
        s.len() == 4,
{
    wrapping_mul(rotl_spec(wrapping_mul(s[1], 5), 7), 9)
}

/// The top 53 bits of a word, as a number below 2^53: the numerator, over
/// 2^53, of the fraction in the half-open range from 0 to 1 that the word
/// stands for.
pub open spec fn mantissa(x: u64) -> u64 {
    x >> 11
}

/// The state that follows a state, word by word in terms of the old words.
pub open spec fn step(s: Seq<u64>) -> Seq<u64>
    recommends
        s.len() == 4,
{
    let low = s[2] ^ s[0];
    let high = s[3] ^ s[1];
    let middle = s[1] ^ low;
    seq![s[0] ^ high, middle, low ^ (s[1] << 17), rotl_spec(middle, 45)]
}

/// The state reached from `s` after `n` outputs.
pub open spec fn state_after(s: Seq<u64>, n: nat) -> Seq<u64>
    decreases n,
{
    if n == 0 {
        s
    } else {
        step(state_after(s, (n - 1) as nat))
    }
}

/// The output with index `n`, counted from 0, of a generator in state `s`.
pub open spec fn nth_output(s: Seq<u64>, n: nat) -> u64 {
    output(state_after(s, n))
}

/// A xoshiro256 generator.
pub struct Xoshiro256 {
    state: [u64; 4],
}

impl View for Xoshiro256 {
    type V = Seq<u64>;

    /// The four state words, in order.
    closed spec fn view(&self) -> Seq<u64> {
        self.state@
    }
}

impl Xoshiro256 {
    /// A generator holds exactly four words, whatever has been done to it.
    pub proof fn lemma_four_words(self)
        ensures
            self@.len() == 4,
    {
    }

    /// Expands a seed into the initial state. Every seed is accepted.
    pub fn new(seed: u64) -> (r: Self)
        ensures
            r@ == initial_state(seed),
    {
        let mut state = [0u64;4];
        let mut s: u64 = seed;
        for i in 0..4
            invariant
                s == mix_iter(seed, i as nat),
                forall|j: int| 0 <= j < i ==> state@[j] == mix_iter(seed, (j + 1) as nat),
        {
            s ^= s >> 30;
            s = s.wrapping_mul(MIX_FIRST);
            s ^= s >> 27;
            s = s.wrapping_mul(MIX_SECOND);
            s ^= s >> 31;
            state[i] = s;
        }
        assert(state@ =~= initial_state(seed));
        Xoshiro256 { state }
    }

    /// Gives the next output and advances the state.
    pub fn next(&mut self) -> (r: u64)
        ensures
            r == output(old(self)@),
            final(self)@ == step(old(self)@),
    {
        let result = rotl(self.state[1].wrapping_mul(5), 7).wrapping_mul(9);
        let t = self.state[1] << 17;
        self.state[2] ^= self.state[0];
        self.state[3] ^= self.state[1];
        self.state[1] ^= self.state[2];
        self.state[0] ^= self.state[3];
        self.state[2] ^= t;
        self.state[3] = rotl(self.state[1], 45);
        assert(self@ =~= step(old(self)@));
        result
    }

    /// Gives the top 53 bits of the next output and advances the state.
    /// Divided by 2^53 the result is a fraction in the half-open range from
    /// 0 to 1, and a double-precision float holds it exactly.
    pub fn next_mantissa(&mut self) -> (r: u64)
        ensures
            r == mantissa(output(old(self)@)),
            r < 0x20_0000_0000_0000,
            final(self)@ == step(old(self)@),
    {
        let x = self.next();
        assert(x >> 11 < 0x20_0000_0000_0000) by (bit_vector);
        x >> 11
    }
}

/// Determinism: two generators made from the same seed are equal, are in the
/// same state after any number of outputs, and give the same output next.
pub proof fn lemma_same_seed_same_stream(a: Xoshiro256, b: Xoshiro256, seed: u64, n: nat)
    requires
        a@ == initial_state(seed),
        b@ == initial_state(seed),
    ensures
        a == b,
        state_after(a@, n) == state_after(b@, n),
        nth_output(a@, n) == nth_output(b@, n),
        mantissa(nth_output(a@, n)) == mantissa(nth_output(b@, n)),
{
    assert(a.state =~= b.state);
}

/// Advancing once and then `n` times is advancing `n + 1` times: after one
/// call, what was the output with index `n + 1` has index `n`.
pub proof fn lemma_state_after_step(s: Seq<u64>, n: nat)
    requires
        s.len() == 4,
    ensures
        state_after(step(s), n) == state_after(s, n + 1),
        nth_output(step(s), n) == nth_output(s, n + 1),
    decreases n,
{
    if n == 0 {
        assert(state_after(s, 0) == s);
        assert(state_after(s, 1) == step(state_after(s, 0)));
    } else {
        lemma_state_after_step(s, (n - 1) as nat);
        assert(state_after(s, n + 1) == step(state_after(s, n)));
    }
}

/// The output is a one-to-one function of the second state word.
proof fn lemma_output_one_to_one(a: u64, b: u64)
    ensures
        wrapping_mul(rotl_spec(wrapping_mul(a, 5), 7), 9) == wrapping_mul(
            rotl_spec(wrapping_mul(b, 5), 7),
            9,
        ) ==> a == b,
{
    let a1 = wrapping_mul(a, 5);
    let b1 = wrapping_mul(b, 5);
    let a2 = rotl_spec(a1, 7);
    let b2 = rotl_spec(b1, 7);
    assert(wrapping_mul(wrapping_mul(a, 5), 0xCCCC_CCCC_CCCC_CCCD) == a) by (bit_vector);
    assert(wrapping_mul(wrapping_mul(b, 5), 0xCCCC_CCCC_CCCC_CCCD) == b) by (bit_vector);
    assert(wrapping_mul(wrapping_mul(a2, 9), 0x8E38_E38E_38E3_8E39) == a2) by (bit_vector);
    assert(wrapping_mul(wrapping_mul(b2, 9), 0x8E38_E38E_38E3_8E39) == b2) by (bit_vector);
    lemma_rotl_round_trip(a1, 7);
    lemma_rotl_round_trip(b1, 7);
}

/// Seed sensitivity as a caller sees it: generators made from two different
/// seeds already differ in their first output.
pub proof fn lemma_distinct_seeds_distinct_first_outputs(s1: u64, s2: u64)
    requires
        s1 != s2,
    ensures
        nth_output(initial_state(s1), 0) != nth_output(initial_state(s2), 0),
{
    let w1 = initial_state(s1)[1];
    let w2 = initial_state(s2)[1];
    lemma_distinct_seeds_distinct_states(s1, s2);
    lemma_output_one_to_one(w1, w2);
}

} // verus!
