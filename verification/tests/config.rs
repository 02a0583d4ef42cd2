use sim::config::{
    Bankruptcy, Firm, Household, Invariants, MoneySection, Ownership, Params, Sim, VetError, config_hash, hex_of,
    vet,
};
use sim::money::MoneyOverflow;

fn shipped() -> Params {
    Params {
        sim: Sim { ticks: 3650, seed: 42, households: 200, firms: 20, month_days: 21 },
        money: MoneySection { total_money_cents: 2_000_000 },
        household: Household {
            consumption_exponent_ppm: 900_000,
            supplier_list_size: 7,
            supplier_switch_threshold_ppm: 10_000,
            price_search_prob_ppm: 250_000,
            rationing_search_prob_ppm: 250_000,
            firms_sampled_consumer: 5,
            firms_sampled_unemployed: 5,
            firms_sampled_employed: 1,
            employed_search_prob_ppm: 100_000,
            reservation_wage_decay_ppm: 900_000,
            reservation_wage_floor_cents: 1_000,
            initial_liquidity_cents: 5_000,
            initial_reservation_wage_cents: 6_300,
        },
        firm: Firm {
            productivity_units_per_worker_day: 3,
            demand_smoothing_ppm: 250_000,
            price_step_bound_ppm: 20_000,
            price_inaction_prob_ppm: 750_000,
            inventory_floor_ppm: 250_000,
            inventory_ceiling_ppm: 1_000_000,
            price_floor_over_mc_ppm: 1_025_000,
            price_ceiling_over_mc_ppm: 1_150_000,
            wage_step_bound_ppm: 19_000,
            full_staff_cycles_before_wage_cut: 24,
            dividend_buffer_ppm: 100_000,
            demand_satisfaction_ppm: 950_000,
            wage_floor_cents: 1_000,
            initial_price_cents: 105,
            initial_wage_cents: 6_300,
            initial_inventory_units: 165,
            initial_expected_demand_bits: 330.0f64.to_bits(),
            initial_liquidity_cents: 50_000,
        },
        bankruptcy: Bankruptcy {
            entrant_size_ratio_ppm: 800_000,
            entrant_price_ratio_ppm: 1_260_000,
            incumbent_trim_per_tail: 1,
        },
        ownership: Ownership { firms_per_owner: 1 },
        invariants: Invariants { liveness_enabled: false },
    }
}

/// The key named by the violation a mutated parameter set produces.
fn rejected_key(params: Params) -> &'static str {
    match params.validate() {
        Ok(()) => panic!("{params:?} was accepted, but it is out of domain"),
        Err(violation) => violation.key,
    }
}

fn with(edit: impl Fn(&mut Params)) -> Params {
    let mut params = shipped();
    edit(&mut params);
    params
}

#[test]
fn the_shipped_schema_shape_validates() {
    assert_eq!(shipped().validate(), Ok(()));
}

#[test]
fn a_run_length_past_the_sub_stream_key_is_rejected_at_start_up() {
    assert_eq!(rejected_key(with(|p| p.sim.ticks = 16_777_216)), "sim.ticks");
    assert_eq!(rejected_key(with(|p| p.sim.ticks = 0)), "sim.ticks");
    assert_eq!(with(|p| p.sim.ticks = 16_777_215).validate(), Ok(()));
}

#[test]
fn an_empty_population_or_an_empty_firm_set_is_rejected() {
    assert_eq!(rejected_key(with(|p| p.sim.households = 0)), "sim.households");
    assert_eq!(rejected_key(with(|p| p.sim.firms = 0)), "sim.firms");
    assert_eq!(rejected_key(with(|p| p.sim.month_days = 0)), "sim.month_days");
}

#[test]
fn a_firm_count_wider_than_the_slot_type_is_rejected() {
    assert_eq!(rejected_key(with(|p| p.sim.firms = 70_000)), "sim.firms");
    assert_eq!(
        with(|p| p.sim.firms = 65_535).validate(),
        Ok(()),
        "the last addressable firm count must remain legal"
    );
}

#[test]
fn a_population_past_the_agent_field_is_rejected() {
    assert_eq!(rejected_key(with(|p| p.sim.households = 20_000_000)), "sim.households");
}

#[test]
fn a_non_positive_money_pile_is_rejected() {
    assert_eq!(rejected_key(with(|p| p.money.total_money_cents = -2_000_000)), "money.total_money_cents");
    assert_eq!(rejected_key(with(|p| p.money.total_money_cents = 0)), "money.total_money_cents");
}

#[test]
fn a_non_finite_or_non_positive_demand_expectation_is_rejected() {
    for bad in [f64::NAN, f64::INFINITY, f64::NEG_INFINITY, 0.0, -1.0] {
        assert_eq!(
            rejected_key(with(|p| p.firm.initial_expected_demand_bits = bad.to_bits())),
            "firm.initial_expected_demand",
            "{bad} was not rejected"
        );
    }
}

#[test]
fn a_consumption_exponent_outside_pow_fracs_domain_is_rejected() {
    for bad in [0, 1_000_000, 2_000_000] {
        assert_eq!(
            rejected_key(with(|p| p.household.consumption_exponent_ppm = bad)),
            "household.consumption_exponent_ppm",
            "{bad} was not rejected"
        );
    }
}

#[test]
fn a_probability_above_one_is_rejected_but_a_ratio_above_one_is_not() {
    assert_eq!(
        rejected_key(with(|p| p.firm.price_inaction_prob_ppm = 2_000_000)),
        "firm.price_inaction_prob_ppm"
    );
    assert_eq!(
        rejected_key(with(|p| p.household.price_search_prob_ppm = 1_000_001)),
        "household.price_search_prob_ppm"
    );
    assert_eq!(with(|p| p.firm.price_ceiling_over_mc_ppm = 1_400_000).validate(), Ok(()));
}

#[test]
fn a_sample_wider_than_the_firm_pool_is_rejected() {
    assert_eq!(
        rejected_key(with(|p| p.household.supplier_list_size = 999)),
        "household.supplier_list_size"
    );
    assert_eq!(
        rejected_key(with(|p| p.household.firms_sampled_consumer = 21)),
        "household.firms_sampled_consumer"
    );
    assert_eq!(with(|p| p.household.firms_sampled_consumer = 20).validate(), Ok(()));
}

#[test]
fn the_first_violation_wins_and_carries_its_reason() {
    let params = with(|p| {
        p.sim.households = 0;
        p.sim.firms = 0;
    });
    let violation = params.validate().unwrap_err();
    assert_eq!(violation.key, "sim.households");
    assert_eq!(violation.why, "must be non-zero: an empty population is a zero divisor, not an economy");

    let violation = with(|p| p.household.price_search_prob_ppm = 1_000_001).validate().unwrap_err();
    assert_eq!(
        violation.why,
        "is 1000001 ppm, above 1000000: Stream::coin_ppm can never reach it, so the coin is \
         deterministically true with no diagnostic anywhere"
    );

    let violation = with(|p| p.household.firms_sampled_consumer = 21).validate().unwrap_err();
    assert_eq!(
        violation.why,
        "is 21 but sim.firms is 20: Stream::sample_k cannot draw more distinct firms than exist and \
         would panic on the first tick"
    );
}

#[test]
fn a_probability_of_exactly_one_and_a_ratio_of_zero_are_accepted() {
    assert_eq!(with(|p| p.firm.price_inaction_prob_ppm = 1_000_000).validate(), Ok(()));
    assert_eq!(with(|p| p.household.consumption_exponent_ppm = 1).validate(), Ok(()));
    assert_eq!(with(|p| p.household.consumption_exponent_ppm = 999_999).validate(), Ok(()));
    assert_eq!(with(|p| p.firm.initial_expected_demand_bits = f64::MIN_POSITIVE.to_bits()).validate(), Ok(()));
}

#[test]
fn vetting_checks_the_money_headroom_before_the_domain() {
    assert_eq!(vet(&shipped()), Ok(()));

    let huge = with(|p| {
        p.money.total_money_cents = i64::MAX / 2 + 1;
        p.sim.households = 0;
    });
    assert_eq!(
        vet(&huge),
        Err(VetError::MoneyRange(MoneyOverflow {
            lhs: i64::MAX / 2 + 1,
            op: "+",
            rhs: i64::MAX / 2 + 1,
        }))
    );

    match vet(&with(|p| p.sim.households = 0)) {
        Err(VetError::Domain(violation)) => assert_eq!(violation.key, "sim.households"),
        other => panic!("expected a domain violation, got {other:?}"),
    }
    assert_eq!(vet(&with(|p| p.money.total_money_cents = i64::MAX / 2)), Ok(()));
}

#[test]
fn the_hash_is_stable_and_sensitive_to_one_comment_character() {
    let text = "[sim]\nticks = 3650\n";
    let once = config_hash(text.as_bytes());
    assert_eq!(once.len(), 64, "digest is not 64 hex characters: {once}");
    assert!(
        once.chars().all(|c| c.is_ascii_digit() || ('a'..='f').contains(&c)),
        "digest is not lowercase hex: {once}"
    );
    assert_eq!(once, config_hash(text.as_bytes()), "the hash is not stable");

    let commented = format!("{text}# one more character\n");
    assert_ne!(once, config_hash(commented.as_bytes()), "a comment change must change the hash");
}

#[test]
fn the_hash_of_known_inputs_is_the_published_digest() {
    assert_eq!(
        config_hash(b""),
        "e3b0c44298fc1c149afbf4c8996fb92427ae41e4649b934ca495991b7852b855"
    );
    assert_eq!(
        config_hash(b"abc"),
        "ba7816bf8f01cfea414140de5dae2223b00361a396177a9cb410ff61f20015ad"
    );
}

#[test]
fn hex_spells_each_byte_as_two_lowercase_digits() {
    assert_eq!(hex_of(&[]), "");
    assert_eq!(hex_of(&[0x00, 0x0f, 0xab, 0xff]), "000fabff");
}
