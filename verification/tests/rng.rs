use std::collections::BTreeSet;

use sim::rng::{AGENT_BITS, PURPOSE_BITS, Purpose, Rngs, TICK_BITS, all_purposes, pack_stream_key, scale_below};

#[test]
fn pack_at_the_origin_is_the_purpose_discriminant() {
    assert_eq!(pack_stream_key(0, 0, Purpose::TracerProbe), Purpose::TracerProbe.discriminant() as u64);
    for p in all_purposes() {
        assert_eq!(pack_stream_key(0, 0, p), p.discriminant() as u64);
    }
}

#[test]
fn one_tick_moves_the_key_by_the_tick_field_shift() {
    for p in all_purposes() {
        assert_eq!(pack_stream_key(1, 0, p), (1u64 << 40) | p.discriminant() as u64);
    }
}

#[test]
fn one_agent_moves_the_key_by_the_purpose_field_width() {
    for p in all_purposes() {
        assert_eq!(pack_stream_key(0, 1, p), (1u64 << 16) | p.discriminant() as u64);
    }
}

#[test]
fn pack_stream_key_is_injective_over_a_swept_grid() {
    let mut seen = BTreeSet::new();
    let mut swept = 0usize;
    for tick in 0..40u32 {
        for agent in 0..40u32 {
            for p in all_purposes() {
                swept += 1;
                assert!(seen.insert(pack_stream_key(tick, agent, p)), "key collision at ({tick}, {agent}, {p:?})");
            }
        }
    }
    assert_eq!(swept, 40 * 40 * all_purposes().len());
    assert_eq!(seen.len(), swept);
}

#[test]
fn the_maximum_tick_and_agent_pack_and_stay_distinct() {
    let max = (1u32 << TICK_BITS) - 1;
    let p = Purpose::GoodsSample;
    let top = pack_stream_key(max, max, p);
    let one_below = pack_stream_key(max - 1, max, p);
    assert_ne!(top, one_below);
    assert_eq!(
        top,
        ((max as u64) << (AGENT_BITS + PURPOSE_BITS)) | ((max as u64) << PURPOSE_BITS) | p.discriminant() as u64
    );
}

#[test]
fn every_purpose_discriminant_is_distinct_and_non_zero() {
    let mut seen = BTreeSet::new();
    for p in all_purposes() {
        let d = p.discriminant();
        assert_ne!(d, 0, "{p:?} must not use discriminant 0");
        assert!(seen.insert(d), "duplicate discriminant {d} at {p:?}");
    }
    assert_eq!(seen.len(), all_purposes().len());
}

#[test]
fn rng_seed_zero_is_a_legal_master_seed() {
    let mut r = Rngs::new(0);
    let v = r.stream(0, 0, Purpose::GoodsSample).below(1_000_000);
    assert!(v < 1_000_000);
}

#[test]
fn an_unopened_stream_reports_zero_draws() {
    let mut r = Rngs::new(20260830);
    let s = r.stream(0, 0, Purpose::GoodsSample);
    assert_eq!(s.draws(), 0);
}

#[test]
fn the_same_master_seed_gives_the_same_first_draw() {
    let (t, a, p) = (10u32, 7u32, Purpose::LabourSample);
    let x = Rngs::new(20260830).stream(t, a, p).below(u64::MAX);
    let y = Rngs::new(20260830).stream(t, a, p).below(u64::MAX);
    assert_eq!(x, y);
}

#[test]
fn an_adjacent_master_seed_gives_a_different_first_draw() {
    let (t, a, p) = (10u32, 7u32, Purpose::LabourSample);
    let x = Rngs::new(20260830).stream(t, a, p).below(u64::MAX);
    let y = Rngs::new(20260831).stream(t, a, p).below(u64::MAX);
    assert_ne!(x, y);
}

#[test]
fn a_different_purpose_at_the_same_tick_and_agent_is_not_a_re_entry() {
    let mut r = Rngs::new(20260830);
    let _a = r.stream(10, 7, Purpose::GoodsSample);
    let _b = r.stream(10, 7, Purpose::LabourSample);
}

#[test]
fn the_widening_multiply_takes_the_high_half() {
    assert_eq!(scale_below(0, 10), 0);
    assert_eq!(scale_below(u64::MAX, 10), 9);
    assert_eq!(scale_below(1u64 << 63, 10), 5);
    assert_eq!(scale_below(u64::MAX, 1), 0);
    assert_eq!(scale_below(12345, 0), 0);
}

#[test]
fn each_draw_is_counted_and_lands_in_range() {
    let mut r = Rngs::new(7);
    let mut s = r.stream(3, 4, Purpose::PriceStep);
    for n in 1..50u64 {
        assert!(s.below(n) < n);
    }
    assert_eq!(s.draws(), 49);
    let _ = s.coin_ppm(500_000);
    assert_eq!(s.draws(), 50);
    let mut never = r.stream(3, 5, Purpose::PriceStep);
    for _ in 0..100 {
        assert!(!never.coin_ppm(0), "a zero-probability coin never lands true");
    }
    let mut always = r.stream(3, 6, Purpose::PriceStep);
    for _ in 0..100 {
        assert!(always.coin_ppm(1_000_000), "a certain coin always lands true");
    }
}

#[test]
fn a_sample_is_distinct_and_the_pool_stays_a_permutation() {
    let mut r = Rngs::new(99);
    let mut s = r.stream(0, 0, Purpose::GoodsSample);
    let mut pool: Vec<u32> = (0..20).collect();
    let sample = s.sample_k(&mut pool, 5);
    assert_eq!(sample.len(), 5);
    assert_eq!(sample.as_slice(), &pool[..5]);
    let distinct: BTreeSet<u32> = sample.iter().copied().collect();
    assert_eq!(distinct.len(), 5);
    let mut sorted = pool.clone();
    sorted.sort_unstable();
    assert_eq!(sorted, (0..20).collect::<Vec<u32>>());
    assert_eq!(s.draws(), 5);
}

#[test]
fn a_shuffle_is_a_permutation_and_takes_one_draw_per_position_but_the_last() {
    let mut r = Rngs::new(99);
    let mut s = r.stream(1, 0, Purpose::ActivationOrderHouseholds);
    let mut pool: Vec<u32> = (0..200).collect();
    s.shuffle_in_place(&mut pool);
    assert_eq!(s.draws(), 199);
    let mut sorted = pool.clone();
    sorted.sort_unstable();
    assert_eq!(sorted, (0..200).collect::<Vec<u32>>());

    let mut empty: Vec<u32> = Vec::new();
    let mut t = r.stream(2, 0, Purpose::ActivationOrderHouseholds);
    t.shuffle_in_place(&mut empty);
    assert_eq!(t.draws(), 0);
}
