use sim::books::Books;
use sim::config::{Bankruptcy, Firm, Household, Invariants, MoneySection, Ownership, Params, Sim};
use sim::invariants::{CheckSet, Violation};
use sim::log::{NullSink, VecSink};
use sha2::{Digest, Sha256};
use sim::phases::{PhaseId, leading_value, order_digest, phases, run, shuffle_activation};
use sim::rng::Rngs;
use sim::world::World;

fn shipped() -> Params {
    Params {
        sim: Sim { ticks: 3650, seed: 42, households: 200, firms: 20, month_days: 21 },
        money: MoneySection { total_money_cents: 2_000_000 },
        household: Household {
            consumption_exponent_ppm: 900_000,
            supplier_list_size: 7,
            supplier_switch_threshold_ppm: 10_000,
            price_search_prob_ppm: 250_000,
            rationing_search_prob_ppm: 250_000,
            firms_sampled_consumer: 5,
            firms_sampled_unemployed: 5,
            firms_sampled_employed: 1,
            employed_search_prob_ppm: 100_000,
            reservation_wage_decay_ppm: 900_000,
            reservation_wage_floor_cents: 1_000,
            initial_liquidity_cents: 5_000,
            initial_reservation_wage_cents: 6_300,
        },
        firm: Firm {
            productivity_units_per_worker_day: 3,
            demand_smoothing_ppm: 250_000,
            price_step_bound_ppm: 20_000,
            price_inaction_prob_ppm: 750_000,
            inventory_floor_ppm: 250_000,
            inventory_ceiling_ppm: 1_000_000,
            price_floor_over_mc_ppm: 1_025_000,
            price_ceiling_over_mc_ppm: 1_150_000,
            wage_step_bound_ppm: 19_000,
            full_staff_cycles_before_wage_cut: 24,
            dividend_buffer_ppm: 100_000,
            demand_satisfaction_ppm: 950_000,
            wage_floor_cents: 1_000,
            initial_price_cents: 105,
            initial_wage_cents: 6_300,
            initial_inventory_units: 165,
            initial_expected_demand_bits: 330.0f64.to_bits(),
            initial_liquidity_cents: 50_000,
        },
        bankruptcy: Bankruptcy {
            entrant_size_ratio_ppm: 800_000,
            entrant_price_ratio_ppm: 1_260_000,
            incumbent_trim_per_tail: 1,
        },
        ownership: Ownership { firms_per_owner: 1 },
        invariants: Invariants { liveness_enabled: false },
    }
}

/// The measured per-tick draw count: one full shuffle of each population
/// takes `len - 1` draws, so 199 + 19 for the shipped sizes.
const EXPECTED_DRAWS_PER_TICK: u32 = 218;

/// Where each identifier sits in the table. Exhaustive, so a new identifier
/// stops this file compiling until it is given a position.
fn documented_position(id: PhaseId) -> usize {
    match id {
        PhaseId::FirmPlanning => 0,
        PhaseId::LabourMarket => 1,
        PhaseId::Production => 2,
        PhaseId::Wages => 3,
        PhaseId::GoodsMarket => 4,
        PhaseId::FirmAccounting => 5,
        PhaseId::Bankruptcy => 6,
        PhaseId::Invariants => 7,
        PhaseId::Log => 8,
    }
}

/// The snake-case spelling of an identifier, derived from its debug name.
fn snake_case(id: PhaseId) -> String {
    let spelled = format!("{id:?}");
    let mut out = String::with_capacity(spelled.len() + 2);
    for (index, character) in spelled.char_indices() {
        if index != 0 && character.is_ascii_uppercase() {
            out.push('_');
        }
        out.push(character.to_ascii_lowercase());
    }
    out
}

/// Run the whole pipeline into `sink`, and return the outcome.
fn drive(params: &Params, seed: u64, ticks: u32, sink: &mut VecSink) -> Result<(), Violation> {
    let mut books = Books::new(params).expect("the shipped configuration opens books");
    let mut world = World::new(params);
    let mut rngs = Rngs::new(seed);
    let checks = CheckSet::from_params(params);
    run(&mut world, &mut books, &mut rngs, &checks, sink, ticks)
}

#[test]
fn phases_the_table_runs_the_documented_sequence() {
    let sequence: Vec<PhaseId> = phases().iter().map(|(id, _)| *id).collect();

    assert_eq!(sequence, PhaseId::all());
    assert_eq!(
        sequence.first().copied(),
        Some(PhaseId::FirmPlanning),
        "a day begins with a firm's plan; everything downstream reads it"
    );
    assert_eq!(
        sequence.last().copied(),
        Some(PhaseId::Log),
        "the log is last: a tick is recorded only once it has passed its check"
    );
}

#[test]
fn phases_an_identifier_cannot_exist_without_a_table_entry() {
    let table = phases();
    assert_eq!(
        table.len(),
        PhaseId::all().len(),
        "every identifier has exactly one entry and the table has no extras"
    );

    for id in PhaseId::all() {
        let position = documented_position(id);
        assert_eq!(table[position].0, id, "{id:?} is not at position {position} of the table");
    }
}

#[test]
fn the_derived_order_agrees_with_the_run_order() {
    let mut sorted = PhaseId::all();
    sorted.sort_unstable();
    assert_eq!(sorted, PhaseId::all());
}

#[test]
fn phases_the_names_are_distinct_and_spell_their_identifiers() {
    let table = phases();
    let mut names: Vec<&str> = table.iter().map(|(_, name)| *name).collect();
    let count = names.len();
    names.sort_unstable();
    names.dedup();
    assert_eq!(names.len(), count, "two phases share a name");

    for (id, name) in table {
        assert_eq!(name, snake_case(id), "the table name and the identifier have drifted apart");
        assert_eq!(name, id.name());
    }
}

#[test]
fn the_check_runs_before_the_log() {
    let table = phases();
    let invariants = documented_position(PhaseId::Invariants);
    let logging = documented_position(PhaseId::Log);

    assert_eq!(table[invariants].0, PhaseId::Invariants);
    assert_eq!(table[logging].0, PhaseId::Log);
    assert!(invariants < logging, "the log must not record a tick the check has not yet passed");
}

#[test]
fn the_seed_reaches_the_first_logged_digest() {
    let params = shipped();

    let mut first = VecSink::default();
    drive(&params, 42, 1, &mut first).expect("one empty tick passes");
    let mut second = VecSink::default();
    drive(&params, 43, 1, &mut second).expect("one empty tick passes");

    assert_eq!(first.rows.len(), 1);
    assert_eq!(second.rows.len(), 1);
    assert_eq!(
        first.rows[0].rng_draws, second.rows[0].rng_draws,
        "the draw count is seed-independent, which is exactly why it cannot be the witness"
    );
    assert_ne!(
        first.rows[0].activation_digest, second.rows[0].activation_digest,
        "the seed does not reach the log: a different seed produced the same digest"
    );
}

#[test]
fn the_same_seed_replays_the_same_rows() {
    let params = shipped();

    let mut first = VecSink::default();
    drive(&params, 42, 32, &mut first).expect("thirty-two empty ticks pass");
    let mut second = VecSink::default();
    drive(&params, 42, 32, &mut second).expect("thirty-two empty ticks pass");

    assert_eq!(first.rows.len(), 32);
    assert_eq!(first, second, "the same seed produced a different series across two in-process runs");
}

#[test]
fn every_logged_row_of_a_short_run_carries_the_conserved_totals_and_a_fixed_draw_count() {
    let params = shipped();
    let mut sink = VecSink::default();
    drive(&params, params.sim.seed, 40, &mut sink).expect("forty empty ticks pass");

    assert_eq!(sink.rows.len(), 40);
    let mut digests = Vec::new();
    for (number, row) in sink.rows.iter().enumerate() {
        assert_eq!(row.tick as usize, number, "the tick column counts up from zero with no gap");
        assert_eq!(row.rng_draws, EXPECTED_DRAWS_PER_TICK);
        assert_eq!(row.total_money_cents, params.money.total_money_cents);
        assert_eq!(row.firm_cash_cents, 20 * 50_000);
        assert_eq!(row.stock_units, 20 * 165);
        assert_eq!(row.headcount, 0);
        assert_eq!(row.transactions, 0);
        assert_eq!(row.postings, 0);
        assert!(row.activation_digest > 0, "the digest stays in the positive range");
        digests.push(row.activation_digest);
    }
    let mut distinct = digests.clone();
    distinct.sort_unstable();
    distinct.dedup();
    assert!(distinct.len() > digests.len() / 2, "the activation digest barely varies across the run");
}

#[test]
fn a_run_of_no_ticks_emits_one_endowment_per_account_and_no_row() {
    let params = shipped();
    let mut sink = VecSink::default();
    drive(&params, 42, 0, &mut sink).expect("no tick cannot fail");
    assert!(sink.rows.is_empty());
    assert_eq!(sink.events.len(), 220);
}

#[test]
fn the_shuffle_is_a_permutation_of_each_population() {
    let params = shipped();
    let mut world = World::new(&params);
    world.tick = 5;
    let mut rngs = Rngs::new(7);
    shuffle_activation(&mut world, &mut rngs);

    let mut households = world.household_order.clone();
    households.sort_unstable();
    assert_eq!(households, (0..200).collect::<Vec<u32>>());
    let mut firms = world.firm_order.clone();
    firms.sort_unstable();
    assert_eq!(firms, (0..20).collect::<Vec<u32>>());
    assert_eq!(world.draws_this_tick, EXPECTED_DRAWS_PER_TICK);
    assert_eq!(world.activation_digest, order_digest(&world.household_order, &world.firm_order));
    assert_eq!(world.tick, 5);
}

#[test]
fn the_digest_separates_the_two_orders_and_stays_positive() {
    let a = order_digest(&[0, 1], &[2]);
    let b = order_digest(&[0], &[1, 2]);
    assert_ne!(a, b, "moving the separator changes the digest");
    assert!(a >= 0 && b >= 0);
    assert_eq!(a, order_digest(&[0, 1], &[2]), "the digest is a function of its arguments");
    assert_ne!(order_digest(&[0, 1], &[]), order_digest(&[1, 0], &[]));
}

#[test]
fn a_null_sink_run_reaches_the_same_outcome() {
    let params = shipped();
    let mut books = Books::new(&params).expect("the shipped configuration opens books");
    let mut world = World::new(&params);
    let mut rngs = Rngs::new(42);
    let checks = CheckSet::from_params(&params);
    let mut sink = NullSink;
    assert!(run(&mut world, &mut books, &mut rngs, &checks, &mut sink, 3).is_ok());
    assert_eq!(world.tick, 2);
}

#[test]
fn the_digest_is_the_halved_leading_eight_bytes_of_the_sha256_of_the_orders() {
    let mut bytes = Vec::new();
    for index in [3u32, 1, 2] {
        bytes.extend_from_slice(&index.to_le_bytes());
    }
    bytes.push(b'|');
    for index in [1u32, 0] {
        bytes.extend_from_slice(&index.to_le_bytes());
    }
    let digest = Sha256::digest(&bytes);
    let mut leading = [0u8; 8];
    leading.copy_from_slice(&digest[..8]);
    let expected = (u64::from_le_bytes(leading) >> 1) as i64;
    assert_eq!(order_digest(&[3, 1, 2], &[1, 0]), expected);
}

#[test]
fn the_leading_value_reads_eight_bytes_little_endian_and_halves() {
    assert_eq!(leading_value(&[2, 0, 0, 0, 0, 0, 0, 0]), 1);
    assert_eq!(leading_value(&[1, 0, 0, 0, 0, 0, 0, 0, 0xff]), 0);
    assert_eq!(leading_value(&[0, 0, 0, 0, 0, 0, 0, 0x80]), 1 << 62);
    assert_eq!(leading_value(&[0xff; 8]), i64::MAX);
    assert_eq!(leading_value(&[0x10, 0x32, 0, 0, 0, 0, 0, 0]), 0x3210 >> 1);
}

#[test]
fn shipped_books_can_be_totalled_and_logged() {
    let books = Books::new(&shipped()).expect("the shipped configuration opens books");
    assert!(sim::phases::can_log(&books));
    assert!(books.totals_fit());
}

#[test]
fn with_liveness_on_an_idle_run_halts_at_its_first_tick_and_logs_nothing() {
    let mut params = shipped();
    params.invariants.liveness_enabled = true;
    let mut sink = VecSink::default();
    let outcome = drive(&params, 42, 5, &mut sink);
    assert_eq!(outcome, Err(Violation::Liveness { tick: 0, counted: 0, required: 1 }));
    assert!(sink.rows.is_empty(), "the violating tick is never logged");
    assert_eq!(sink.events.len(), 220, "the endowment still reaches the event stream");
}

#[test]
fn orders_of_different_lengths_can_share_their_bytes_and_so_their_digest() {
    // One index whose top byte is the separator, against one whose bottom
    // byte is: the two byte strings coincide, which is why the encoding
    // determines the orders only once the household count is fixed.
    let firm_first = order_digest(&[], &[0x7c01_0101]);
    let household_first = order_digest(&[0x0101_017c], &[]);
    assert_eq!(firm_first, household_first);
    assert_ne!(order_digest(&[0x0101_017c], &[]), order_digest(&[0x0101_017d], &[]));
}

#[test]
fn a_halted_run_leaves_the_world_at_the_halting_tick_and_the_books_as_it_saw_them() {
    let mut params = shipped();
    params.invariants.liveness_enabled = true;
    let mut books = Books::new(&params).expect("the shipped configuration opens books");
    let opening = books.journal().len();
    let mut world = World::new(&params);
    let mut rngs = Rngs::new(42);
    let checks = CheckSet::from_params(&params);
    let mut sink = NullSink;
    let outcome = run(&mut world, &mut books, &mut rngs, &checks, &mut sink, 7);
    assert!(outcome.is_err());
    assert_eq!(world.tick, 0);
    assert_eq!(books.journal().len(), opening);
    assert_eq!(books.total_money().cents(), params.money.total_money_cents);
}
