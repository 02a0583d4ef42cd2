use sim::config::{Bankruptcy, Firm, Household, Invariants, MoneySection, Ownership, Params, Sim};
use sim::ids::HouseholdId;
use sim::world::World;

fn shipped() -> Params {
    Params {
        sim: Sim { ticks: 3650, seed: 42, households: 200, firms: 20, month_days: 21 },
        money: MoneySection { total_money_cents: 2_000_000 },
        household: Household {
            consumption_exponent_ppm: 900_000,
            supplier_list_size: 7,
            supplier_switch_threshold_ppm: 10_000,
            price_search_prob_ppm: 250_000,
            rationing_search_prob_ppm: 250_000,
            firms_sampled_consumer: 5,
            firms_sampled_unemployed: 5,
            firms_sampled_employed: 1,
            employed_search_prob_ppm: 100_000,
            reservation_wage_decay_ppm: 900_000,
            reservation_wage_floor_cents: 1_000,
            initial_liquidity_cents: 5_000,
            initial_reservation_wage_cents: 6_300,
        },
        firm: Firm {
            productivity_units_per_worker_day: 3,
            demand_smoothing_ppm: 250_000,
            price_step_bound_ppm: 20_000,
            price_inaction_prob_ppm: 750_000,
            inventory_floor_ppm: 250_000,
            inventory_ceiling_ppm: 1_000_000,
            price_floor_over_mc_ppm: 1_025_000,
            price_ceiling_over_mc_ppm: 1_150_000,
            wage_step_bound_ppm: 19_000,
            full_staff_cycles_before_wage_cut: 24,
            dividend_buffer_ppm: 100_000,
            demand_satisfaction_ppm: 950_000,
            wage_floor_cents: 1_000,
            initial_price_cents: 105,
            initial_wage_cents: 6_300,
            initial_inventory_units: 165,
            initial_expected_demand_bits: 330.0f64.to_bits(),
            initial_liquidity_cents: 50_000,
        },
        bankruptcy: Bankruptcy {
            entrant_size_ratio_ppm: 800_000,
            entrant_price_ratio_ppm: 1_260_000,
            incumbent_trim_per_tail: 1,
        },
        ownership: Ownership { firms_per_owner: 1 },
        invariants: Invariants { liveness_enabled: false },
    }
}

#[test]
fn the_population_is_the_configured_one() {
    let params = shipped();
    let world = World::new(&params);

    assert_eq!(world.households.len(), params.sim.households as usize, "one household per configured household");
    assert_eq!(world.firms.len(), params.sim.firms as usize, "one firm slot per configured firm");

    for (index, household) in world.households.iter().enumerate() {
        assert_eq!(household.id, HouseholdId(u32::try_from(index).expect("the household count is bounded")));
    }
}

#[test]
fn every_firm_opens_at_the_configured_price() {
    let params = shipped();
    let world = World::new(&params);

    for id in world.firms.live_ids() {
        let firm = world.firms.get(id).expect("a live identity resolves");
        assert_eq!(firm.price_cents, params.firm.initial_price_cents);
    }
    assert_eq!(world.firms.live_ids().len(), 20);
}

#[test]
fn a_fresh_world_has_no_activation_state() {
    let params = shipped();
    let world = World::new(&params);

    assert_eq!(world.tick, 0);
    assert!(world.household_order.is_empty());
    assert!(world.firm_order.is_empty());
    assert_eq!(world.draws_this_tick, 0);
    assert_eq!(world.activation_digest, 0);
}

#[test]
fn an_empty_economy_builds_an_empty_world() {
    let mut params = shipped();
    params.sim.households = 0;
    params.sim.firms = 0;
    let world = World::new(&params);
    assert!(world.households.is_empty());
    assert!(world.firms.is_empty());
}
