use sim::money::Money;
use sim::rng::{Purpose, Rngs};

/// The addition lives here; it is executed in the caller's frame.
fn add_across_an_inline_boundary(lhs: i64, rhs: i64) -> i64 {
    lhs + rhs
}

/// The addition is written once against `T: Add` and monomorphised at `i64`.
fn add_in_a_generic<T: std::ops::Add<Output = T>>(lhs: T, rhs: T) -> T {
    lhs + rhs
}

#[test]
fn raw_i64_at_the_maximum_does_not_panic() {
    let lhs = std::hint::black_box(i64::MAX - 1);
    let rhs = std::hint::black_box(1i64);
    assert_eq!(lhs + rhs, i64::MAX, "one step below the edge must not panic");
}

#[test]
fn the_held_out_sites_do_not_panic_one_step_below_the_edge() {
    let lhs = std::hint::black_box(i64::MAX - 1);
    let rhs = std::hint::black_box(1i64);
    assert_eq!(add_across_an_inline_boundary(lhs, rhs), i64::MAX);
    assert_eq!(add_in_a_generic(lhs, rhs), i64::MAX);
}

#[test]
fn the_tracer_probe_takes_one_draw_and_moves_with_the_seed() {
    let mut probe = Rngs::new(7).stream(0, 0, Purpose::TracerProbe);
    let draw = probe.below(1_000_000);
    assert_eq!(probe.draws(), 1, "below() must take exactly one draw");
    assert!(draw < 1_000_000);

    let mut again = Rngs::new(7).stream(0, 0, Purpose::TracerProbe);
    assert_eq!(again.below(1_000_000), draw, "the same seed gives the same draw");

    let mut other = Rngs::new(8).stream(0, 0, Purpose::TracerProbe);
    assert_ne!(other.below(1_000_000), draw, "the draw did not change with the seed");

    let money = Money::from_cents(2_000_000) + Money::zero();
    assert_eq!(money.cents(), 2_000_000);
}
