use xoshiro256::generator::Xoshiro256;
use xoshiro256::rotate::rotl;

fn take(seed: u64, n: usize) -> Vec<u64> {
    let mut g = Xoshiro256::new(seed);
    let mut out = Vec::with_capacity(n);
    for _ in 0..n {
        out.push(g.next());
    }
    out
}

#[test]
fn seed_42_first_output_is_exact() {
    let mut g = Xoshiro256::new(42);
    assert_eq!(g.next(), 2086091944186774739);
}

#[test]
fn seed_42_first_five_outputs_are_exact() {
    assert_eq!(
        take(42, 5),
        vec![
            0x1cf34992160e84d3,
            0xe3e56ad8307096c1,
            0x9cbeb1d67f5e8260,
            0xbb27039ff50af644,
            0x116bec351f708999,
        ]
    );
}

#[test]
fn seed_1_three_outputs_are_exact_and_repeatable() {
    let expected: Vec<u64> = vec![
        15220983486755372610,
        5856922152365615546,
        8589804664733522438,
    ];
    assert_eq!(take(1, 3), expected);
    assert_eq!(take(1, 3), expected);
}

#[test]
fn seed_2024_three_outputs_are_exact() {
    assert_eq!(
        take(2024, 3),
        vec![16334884683502950723, 7536175159807125091, 15290725274957536384]
    );
}

#[test]
fn largest_seed_wraps_without_failing() {
    assert_eq!(
        take(u64::MAX, 5),
        vec![
            18193488877114395685,
            2632022968551138045,
            9865810147959643314,
            11294828645001524449,
            17049274444936244620,
        ]
    );
}

#[test]
fn hundredth_and_ten_thousandth_outputs_are_exact() {
    let out = take(42, 10_000);
    assert_eq!(out[99], 16156669614069564787);
    assert_eq!(out[9_999], 5956818971730685599);
}

#[test]
fn same_seed_gives_same_stream() {
    for seed in [0u64, 1, 42, 12345, u64::MAX] {
        let mut a = Xoshiro256::new(seed);
        let mut b = Xoshiro256::new(seed);
        for i in 0..1000 {
            if i % 3 == 0 {
                assert_eq!(a.next_mantissa(), b.next_mantissa());
            } else {
                assert_eq!(a.next(), b.next());
            }
        }
    }
}

#[test]
fn mantissa_is_the_top_53_bits_of_the_output() {
    let mut a = Xoshiro256::new(42);
    let mut b = Xoshiro256::new(42);
    for _ in 0..100 {
        assert_eq!(a.next_mantissa(), b.next() >> 11);
    }
}

#[test]
fn mantissa_advances_the_state_like_an_output() {
    let mut g = Xoshiro256::new(1);
    assert_eq!(g.next_mantissa(), 7432120843142271);
    assert_eq!(g.next(), 5856922152365615546);
    assert_eq!(g.next_mantissa(), 4194240558951915);
}

#[test]
fn mantissa_stays_below_two_to_the_53() {
    let mut g = Xoshiro256::new(7);
    for _ in 0..10_000 {
        assert!(g.next_mantissa() < (1u64 << 53));
    }
}

#[test]
fn fraction_lies_in_the_unit_range() {
    let scale = 1.0 / (1u64 << 53) as f64;
    let mut g = Xoshiro256::new(7);
    for _ in 0..10_000 {
        let v = g.next_mantissa() as f64 * scale;
        assert!(0.0 <= v && v < 1.0);
    }
}

#[test]
fn seed_42_first_fractions_are_exact() {
    let scale = 1.0 / (1u64 << 53) as f64;
    let mut g = Xoshiro256::new(42);
    assert_eq!(g.next_mantissa(), 1018599582122448);
    assert_eq!(g.next_mantissa() as f64 * scale, 0.8902193811231334);
    assert_eq!(g.next_mantissa() as f64 * scale, 0.6122847698855995);
}

#[test]
fn largest_mantissa_is_still_below_one() {
    let scale = 1.0 / (1u64 << 53) as f64;
    let top = (u64::MAX >> 11) as f64 * scale;
    assert!(top < 1.0);
    assert_eq!(u64::MAX >> 11, (1u64 << 53) - 1);
}

#[test]
fn ten_thousand_outputs_do_not_freeze_or_cycle() {
    let out = take(1, 10_000);
    assert!(out.iter().any(|&x| x != out[0]));
    let mut sorted = out.clone();
    sorted.sort();
    sorted.dedup();
    assert_eq!(sorted.len(), 10_000);
    for period in 1..=64usize {
        assert!((0..out.len() - period).any(|i| out[i] != out[i + period]));
    }
}

#[test]
fn seed_zero_expands_to_the_zero_state() {
    let out = take(0, 100);
    assert!(out.iter().all(|&x| x == 0));
}

#[test]
fn distinct_small_seeds_give_distinct_first_outputs() {
    let mut first: Vec<u64> = (0..1000u64).map(|s| Xoshiro256::new(s).next()).collect();
    first.sort();
    first.dedup();
    assert_eq!(first.len(), 1000);
}

#[test]
fn rotl_exact_values() {
    assert_eq!(rotl(0x8000000000000001, 1), 0x3);
    assert_eq!(rotl(0x0123456789abcdef, 7), 0x91a2b3c4d5e6f780);
    assert_eq!(rotl(0x0123456789abcdef, 45), 0x79bde02468acf135);
    assert_eq!(rotl(1, 63), 0x8000000000000000);
    assert_eq!(rotl(0xF000000000000000, 4), 0xF);
    assert_eq!(rotl(u64::MAX, 13), u64::MAX);
    assert_eq!(rotl(0, 32), 0);
}

#[test]
fn rotl_agrees_with_rotate_left() {
    for x in [0u64, 1, 0xdeadbeefcafef00d, u64::MAX, 0x8000000000000000] {
        for k in 1..64u32 {
            assert_eq!(rotl(x, k), x.rotate_left(k));
        }
    }
}

#[test]
fn rotl_round_trip_gives_the_word_back() {
    for x in [0u64, 1, 42, 0xdeadbeefcafef00d, u64::MAX, 0x0123456789abcdef] {
        for k in 1..=63u32 {
            assert_eq!(rotl(rotl(x, k), 64 - k), x);
        }
    }
}

#[test]
fn root_paths_name_the_same_items() {
    let mut a = xoshiro256::Xoshiro256::new(42);
    assert_eq!(a.next(), 0x1cf34992160e84d3);
    assert_eq!(xoshiro256::rotl(1, 1), 2);
}
