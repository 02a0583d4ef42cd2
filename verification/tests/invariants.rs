use sim::books::{Books, Posting, PostingKind, PostError};
use sim::config::{Bankruptcy, Firm, Household, Invariants, MoneySection, Ownership, Params, Sim};
use sim::ids::{Account, FirmId, FirmSlot, GoodId, HouseholdId};
use sim::invariants::{
    CheckId, CheckSet, MINIMUM_TRANSACTIONS_PER_TICK, NegativeField, Violation, ZeroSumDetail, all_checks,
    check_goods, check_money, first_breaking_cash_posting, first_breaking_goods_posting, first_posting_naming,
    run_check, well_formed,
};
use sim::money::Money;

const FOOD: GoodId = GoodId(0);

fn shipped() -> Params {
    Params {
        sim: Sim { ticks: 3650, seed: 42, households: 200, firms: 20, month_days: 21 },
        money: MoneySection { total_money_cents: 2_000_000 },
        household: Household {
            consumption_exponent_ppm: 900_000,
            supplier_list_size: 7,
            supplier_switch_threshold_ppm: 10_000,
            price_search_prob_ppm: 250_000,
            rationing_search_prob_ppm: 250_000,
            firms_sampled_consumer: 5,
            firms_sampled_unemployed: 5,
            firms_sampled_employed: 1,
            employed_search_prob_ppm: 100_000,
            reservation_wage_decay_ppm: 900_000,
            reservation_wage_floor_cents: 1_000,
            initial_liquidity_cents: 5_000,
            initial_reservation_wage_cents: 6_300,
        },
        firm: Firm {
            productivity_units_per_worker_day: 3,
            demand_smoothing_ppm: 250_000,
            price_step_bound_ppm: 20_000,
            price_inaction_prob_ppm: 750_000,
            inventory_floor_ppm: 250_000,
            inventory_ceiling_ppm: 1_000_000,
            price_floor_over_mc_ppm: 1_025_000,
            price_ceiling_over_mc_ppm: 1_150_000,
            wage_step_bound_ppm: 19_000,
            full_staff_cycles_before_wage_cut: 24,
            dividend_buffer_ppm: 100_000,
            demand_satisfaction_ppm: 950_000,
            wage_floor_cents: 1_000,
            initial_price_cents: 105,
            initial_wage_cents: 6_300,
            initial_inventory_units: 165,
            initial_expected_demand_bits: 330.0f64.to_bits(),
            initial_liquidity_cents: 50_000,
        },
        bankruptcy: Bankruptcy {
            entrant_size_ratio_ppm: 800_000,
            entrant_price_ratio_ppm: 1_260_000,
            incumbent_trim_per_tail: 1,
        },
        ownership: Ownership { firms_per_owner: 1 },
        invariants: Invariants { liveness_enabled: false },
    }
}

fn shipped_with_liveness(enabled: bool) -> Params {
    let mut params = shipped();
    params.invariants.liveness_enabled = enabled;
    params
}

fn household(index: u32) -> Account {
    Account::Household(HouseholdId(index))
}

fn firm(slot: u16) -> Account {
    Account::Firm(FirmId { slot: FirmSlot(slot), generation: 0 })
}

fn buyer() -> Account {
    household(0)
}

fn seller() -> Account {
    firm(0)
}

/// The check at `position` of the table, asserted to be `id` under `name`.
fn table_check(position: usize, id: CheckId, name: &str) -> CheckId {
    let (at, named) = all_checks()[position];
    assert_eq!(at, id);
    assert_eq!(named, name);
    at
}

fn goods_check(books: &Books, tick: u32) -> Result<(), Violation> {
    run_check(table_check(1, CheckId::GoodsConservation, "goods_conservation"), books, tick)
}

fn non_negative_check(books: &Books, tick: u32) -> Result<(), Violation> {
    run_check(table_check(2, CheckId::NonNegative, "non_negative"), books, tick)
}

fn zero_sum_check(books: &Books, tick: u32) -> Result<(), Violation> {
    run_check(table_check(3, CheckId::ZeroSum, "zero_sum"), books, tick)
}

fn check_for(id: CheckId, books: &Books, tick: u32) -> Result<(), Violation> {
    let (found, _) = all_checks().into_iter().find(|(entry, _)| *entry == id).expect("every identifier has a table entry");
    run_check(found, books, tick)
}

fn empty_books(enabled: bool) -> (Books, CheckSet) {
    let params = shipped_with_liveness(enabled);
    let books = Books::new(&params).expect("the shipped endowment sums to the stock");
    let checks = CheckSet::from_params(&params);
    (books, checks)
}

fn move_a_cent(books: &mut Books) {
    books.transfer(household(0), firm(0), Money::from_cents(1)).expect("an endowed household can pay a cent");
}

fn endowed_units(params: &Params) -> i64 {
    i64::from(params.sim.firms) * params.firm.initial_inventory_units
}

fn identity(books: &Books) -> i64 {
    books.produced(FOOD) - books.consumed(FOOD) - books.total_stock(FOOD)
}

fn opened() -> (Books, i64) {
    let params = shipped_with_liveness(false);
    let books = Books::new(&params).expect("the shipped endowment sums to the stock");
    (books, params.money.total_money_cents)
}

fn line(kind: PostingKind) -> Posting {
    Posting {
        seq: 0,
        kind,
        debit: buyer(),
        credit: seller(),
        debit_cents: 0,
        credit_cents: 0,
        good: FOOD,
        units_out: 0,
        units_in: 0,
        cash_residual_cents: 0,
        goods_residual_units: 0,
    }
}

fn one_sided(kind: PostingKind) -> Posting {
    Posting { credit: buyer(), ..line(kind) }
}

fn households_endowed_negative(deficit_cents: i64) -> Params {
    let mut params = shipped_with_liveness(false);
    let households = i64::from(params.sim.households);
    let firms = i64::from(params.sim.firms);
    params.household.initial_liquidity_cents = -deficit_cents;
    let owed = params.money.total_money_cents + households * deficit_cents;
    assert_eq!(owed % firms, 0, "choose a deficit that divides evenly across the firm slots");
    params.firm.initial_liquidity_cents = owed / firms;
    params
}

fn firms_endowed_negative(deficit_cents: i64) -> Params {
    let mut params = shipped_with_liveness(false);
    let households = i64::from(params.sim.households);
    let firms = i64::from(params.sim.firms);
    params.firm.initial_liquidity_cents = -deficit_cents;
    let owed = params.money.total_money_cents + firms * deficit_cents;
    assert_eq!(owed % households, 0, "choose a deficit that divides evenly");
    params.household.initial_liquidity_cents = owed / households;
    params
}

fn documented_position(id: CheckId) -> usize {
    match id {
        CheckId::MoneyConservation => 0,
        CheckId::GoodsConservation => 1,
        CheckId::NonNegative => 2,
        CheckId::ZeroSum => 3,
        CheckId::Liveness => 4,
    }
}

fn snake_case(id: CheckId) -> String {
    let spelled = format!("{id:?}");
    let mut out = String::with_capacity(spelled.len() + 2);
    for (index, character) in spelled.char_indices() {
        if index != 0 && character.is_ascii_uppercase() {
            out.push('_');
        }
        out.push(character.to_ascii_lowercase());
    }
    out
}

// --- the liveness switch ---------------------------------------------------

#[test]
fn the_gate_decides_the_exact_sequence_of_active_checks() {
    assert_eq!(
        CheckSet::from_params(&shipped_with_liveness(true)).active_ids(),
        vec![
            CheckId::MoneyConservation,
            CheckId::GoodsConservation,
            CheckId::NonNegative,
            CheckId::ZeroSum,
            CheckId::Liveness
        ]
    );
    assert_eq!(
        CheckSet::from_params(&shipped_with_liveness(false)).active_ids(),
        vec![CheckId::MoneyConservation, CheckId::GoodsConservation, CheckId::NonNegative, CheckId::ZeroSum]
    );
}

#[test]
fn a_tick_that_traded_nothing_fails_only_because_the_gate_is_on() {
    let (books, on) = empty_books(true);
    assert_eq!(
        on.run(&books, 7),
        Err(Violation::Liveness { tick: 7, counted: 0, required: MINIMUM_TRANSACTIONS_PER_TICK })
    );
    let off = CheckSet::from_params(&shipped_with_liveness(false));
    assert_eq!(off.run(&books, 7), Ok(()));
}

#[test]
fn a_tick_that_moved_a_cent_passes_with_the_gate_on() {
    let (mut books, checks) = empty_books(true);
    move_a_cent(&mut books);
    assert_eq!(books.transactions_this_tick(), 1);
    assert_eq!(checks.run(&books, 0), Ok(()));
}

#[test]
fn a_tick_whose_only_transfer_moved_nothing_still_fails_liveness() {
    let (mut books, checks) = empty_books(true);
    assert_eq!(
        books.transfer(household(0), firm(0), Money::zero()),
        Err(PostError::EmptyTransfer { amount_cents: 0 })
    );
    assert_eq!(books.transactions_this_tick(), 0);
    assert!(books.journal().is_empty());
    assert_eq!(
        checks.run(&books, 5),
        Err(Violation::Liveness { tick: 5, counted: 0, required: MINIMUM_TRANSACTIONS_PER_TICK })
    );
    move_a_cent(&mut books);
    assert_eq!(checks.run(&books, 5), Ok(()));
}

#[test]
fn the_transaction_count_resets_each_tick_so_liveness_is_a_per_tick_property() {
    let (mut books, checks) = empty_books(true);
    move_a_cent(&mut books);
    assert_eq!(checks.run(&books, 0), Ok(()));
    books.end_of_tick();
    assert_eq!(books.transactions_this_tick(), 0);
    assert_eq!(
        checks.run(&books, 1),
        Err(Violation::Liveness { tick: 1, counted: 0, required: MINIMUM_TRANSACTIONS_PER_TICK })
    );
}

// --- goods conservation -----------------------------------------------------

#[test]
fn the_identity_holds_at_tick_zero_before_anything_has_happened() {
    let books = Books::new(&shipped_with_liveness(false)).expect("the books open");
    assert!(books.total_stock(FOOD) > 0, "firms open holding inventory");
    assert_eq!(goods_check(&books, 0), Ok(()));
    assert_eq!(identity(&books), 0);
}

#[test]
fn immediate_consumption_holds_the_identity_at_every_step() {
    let mut books = Books::new(&shipped_with_liveness(false)).expect("the books open");
    books.produce(seller(), FOOD, 12).expect("a firm produces");
    assert_eq!(goods_check(&books, 0), Ok(()));
    books.exchange(buyer(), seller(), FOOD, 4, Money::from_cents(420)).expect("a household buys four units");
    assert_eq!(goods_check(&books, 0), Ok(()));
    assert_eq!(books.stock_of(buyer(), FOOD), Some(4));
    books.consume(buyer(), FOOD, 4).expect("and eats them");
    assert_eq!(goods_check(&books, 0), Ok(()));
    assert_eq!(books.stock_of(buyer(), FOOD), Some(0));
    assert_eq!(books.consumed(FOOD), 4);
    assert_eq!(identity(&books), 0);
    assert_eq!(books.goods_residual_units(), 0);
}

#[test]
fn held_stock_across_a_tick_boundary_holds_the_same_identity() {
    let mut books = Books::new(&shipped_with_liveness(false)).expect("the books open");
    books.produce(seller(), FOOD, 12).expect("a firm produces");
    books.exchange(buyer(), seller(), FOOD, 4, Money::from_cents(420)).expect("a household buys four units");
    assert_eq!(goods_check(&books, 0), Ok(()));
    books.end_of_tick();
    assert_eq!(books.stock_of(buyer(), FOOD), Some(4));
    assert_eq!(goods_check(&books, 1), Ok(()));
    books.consume(buyer(), FOOD, 4).expect("it eats them on a later tick");
    assert_eq!(goods_check(&books, 1), Ok(()));
    assert_eq!(books.stock_of(buyer(), FOOD), Some(0));
    assert_eq!(identity(&books), 0);
    assert_eq!(books.goods_residual_units(), 0);
}

#[test]
fn both_consumption_models_use_the_same_check_and_the_same_accessors() {
    let mut immediate = Books::new(&shipped_with_liveness(false)).expect("the books open");
    immediate.produce(seller(), FOOD, 9).expect("produces");
    immediate.exchange(buyer(), seller(), FOOD, 2, Money::from_cents(210)).expect("sells");
    immediate.consume(buyer(), FOOD, 2).expect("eaten at once");

    let mut held = Books::new(&shipped_with_liveness(false)).expect("the books open");
    held.produce(seller(), FOOD, 9).expect("produces");
    held.exchange(buyer(), seller(), FOOD, 2, Money::from_cents(210)).expect("sells");
    held.end_of_tick();

    assert_eq!(immediate.stock_of(buyer(), FOOD), Some(0));
    assert_eq!(held.stock_of(buyer(), FOOD), Some(2));

    for books in [&immediate, &held] {
        assert_eq!(goods_check(books, 1), Ok(()));
        assert_eq!(books.produced(FOOD) - books.consumed(FOOD) - books.total_stock(FOOD), 0);
        assert_eq!(books.goods_residual_units(), 0);
    }
}

#[test]
fn a_production_only_tick_passes_goods_conservation_and_fails_liveness() {
    let params = shipped_with_liveness(true);
    let mut books = Books::new(&params).expect("the books open");
    let checks = CheckSet::from_params(&params);
    books.produce(seller(), FOOD, 30).expect("a firm produces");
    assert_eq!(goods_check(&books, 3), Ok(()));
    assert_eq!(books.transactions_this_tick(), 0);
    assert_eq!(
        checks.run(&books, 3),
        Err(Violation::Liveness { tick: 3, counted: 0, required: MINIMUM_TRANSACTIONS_PER_TICK })
    );
}

#[test]
fn an_exchange_whose_unit_legs_disagree_is_a_goods_leak_and_is_localised() {
    let params = shipped_with_liveness(false);
    let mut books = Books::new(&params).expect("the books open");
    let endowed = endowed_units(&params);

    let posting = books.corrupt_appended_posting(Posting {
        seq: 0,
        kind: PostingKind::Exchange,
        debit: buyer(),
        credit: seller(),
        debit_cents: 400,
        credit_cents: 400,
        good: FOOD,
        units_out: 3,
        units_in: 1,
        cash_residual_cents: 0,
        goods_residual_units: 0,
    });

    assert_eq!(books.goods_residual_units(), 2);
    assert_eq!(identity(&books), 0);

    let leak = Violation::GoodsConservation {
        tick: 5,
        good: FOOD,
        produced: endowed,
        consumed: 0,
        stock: endowed,
        delta_units: 0,
        journal_residual_units: 2,
        posting: Some(Box::new(posting)),
    };
    assert_eq!(goods_check(&books, 5), Err(leak.clone()));

    let checks = CheckSet::from_params(&params);
    assert_eq!(checks.run(&books, 5), Err(leak));

    assert_eq!(check_for(CheckId::MoneyConservation, &books, 5), Ok(()));
    assert_eq!(check_for(CheckId::NonNegative, &books, 5), Ok(()));
}

#[test]
fn units_conjured_outside_the_posting_path_break_the_identity_and_name_no_posting() {
    let params = shipped_with_liveness(false);
    let mut books = Books::new(&params).expect("the books open");
    let endowed = endowed_units(&params);

    books.corrupt_silent_stock(seller(), FOOD, 7);

    assert_eq!(books.goods_residual_units(), 0);
    assert_eq!(identity(&books), -7);

    let outcome = goods_check(&books, 6);
    assert_eq!(
        outcome,
        Err(Violation::GoodsConservation {
            tick: 6,
            good: FOOD,
            produced: endowed,
            consumed: 0,
            stock: endowed + 7,
            delta_units: -7,
            journal_residual_units: 0,
            posting: None,
        })
    );

    let rendered = outcome.expect_err("seven units came from nowhere").render();
    assert!(rendered.contains("no offending posting"), "{rendered}");

    assert_eq!(check_for(CheckId::MoneyConservation, &books, 6), Ok(()));
    assert_eq!(check_for(CheckId::NonNegative, &books, 6), Ok(()));
    assert_eq!(check_for(CheckId::ZeroSum, &books, 6), Ok(()));
}

#[test]
fn localisation_names_the_first_break_and_not_a_later_one() {
    let line = |seq: u32, goods_residual_units: i64| Posting {
        seq,
        kind: PostingKind::Produce,
        debit: seller(),
        credit: seller(),
        debit_cents: 0,
        credit_cents: 0,
        good: FOOD,
        units_out: 0,
        units_in: 0,
        cash_residual_cents: 0,
        goods_residual_units,
    };
    let journal = [line(0, 0), line(1, -3), line(2, 0), line(3, 7)];

    assert_eq!(first_breaking_goods_posting(&journal), Some(line(1, -3)));
    assert_eq!(first_breaking_cash_posting(&journal), None);
    assert_eq!(first_breaking_goods_posting(&[]), None);
}

// --- the table ----------------------------------------------------------------

#[test]
fn invariants_the_table_runs_the_documented_sequence() {
    let sequence: Vec<CheckId> = all_checks().iter().map(|(id, _)| *id).collect();
    assert_eq!(sequence, CheckId::all());
    assert_eq!(sequence.first().copied(), Some(CheckId::MoneyConservation));
    assert_eq!(sequence.last().copied(), Some(CheckId::Liveness));
}

#[test]
fn invariants_an_identifier_cannot_exist_without_a_table_entry() {
    assert_eq!(all_checks().len(), CheckId::all().len());
    for id in CheckId::all() {
        let position = documented_position(id);
        assert_eq!(all_checks()[position].0, id, "{id:?} is not at position {position} of the table");
    }
    let mut sorted = CheckId::all();
    sorted.sort_unstable();
    assert_eq!(sorted, CheckId::all());
}

#[test]
fn invariants_the_names_are_distinct_and_spell_their_identifiers() {
    let mut names: Vec<&str> = all_checks().iter().map(|(_, name)| *name).collect();
    let count = names.len();
    names.sort_unstable();
    names.dedup();
    assert_eq!(names.len(), count, "two checks share a name");
    for (id, name) in all_checks() {
        assert_eq!(name, snake_case(id));
        assert_eq!(id.name(), name);
    }
}

// --- non-negativity -----------------------------------------------------------

#[test]
fn a_healthy_economy_holds_no_negative_quantity() {
    let mut books = Books::new(&shipped_with_liveness(false)).expect("the books open");
    assert_eq!(non_negative_check(&books, 0), Ok(()));
    books.produce(firm(0), FOOD, 40).expect("a firm produces");
    books.exchange(household(0), firm(0), FOOD, 3, Money::from_cents(300)).expect("a household buys");
    books.consume(household(0), FOOD, 3).expect("and eats");
    books.transfer(household(1), firm(2), Money::from_cents(1_000)).expect("and another pays");
    assert_eq!(non_negative_check(&books, 5), Ok(()));
}

#[test]
fn a_negative_balance_with_the_total_intact_is_reported_and_conservation_is_not() {
    let params = households_endowed_negative(100);
    let books = Books::new(&params).expect("the endowment still sums to the stock");
    assert_eq!(books.total_money().cents(), params.money.total_money_cents);
    assert_eq!(check_money(&books, 6), Ok(()));
    assert_eq!(check_goods(&books, 6), Ok(()));
    assert_eq!(
        non_negative_check(&books, 6),
        Err(Violation::Negative {
            tick: 6,
            account: household(0),
            field: NegativeField::Cash,
            value: -100,
            posting: None,
        })
    );
}

#[test]
fn the_check_set_reports_the_deficit_before_it_reports_liveness() {
    let mut params = households_endowed_negative(100);
    params.invariants.liveness_enabled = true;
    let books = Books::new(&params).expect("the endowment still sums to the stock");
    let checks = CheckSet::from_params(&params);
    assert_eq!(books.transactions_this_tick(), 0);
    assert_eq!(
        checks.run(&books, 0),
        Err(Violation::Negative {
            tick: 0,
            account: household(0),
            field: NegativeField::Cash,
            value: -100,
            posting: None,
        })
    );
}

#[test]
fn households_are_walked_before_firm_slots_and_slots_in_ascending_order() {
    let params = firms_endowed_negative(500);
    let books = Books::new(&params).expect("the endowment still sums to the stock");
    assert_eq!(check_money(&books, 2), Ok(()));
    assert_eq!(books.cash_of(household(0)).map(|cash| cash.cents() >= 0), Some(true));
    assert_eq!(
        non_negative_check(&books, 2),
        Err(Violation::Negative {
            tick: 2,
            account: firm(0),
            field: NegativeField::Cash,
            value: -500,
            posting: None,
        })
    );
}

#[test]
fn the_violation_names_the_first_posting_touching_the_account_or_says_there_is_none() {
    let params = households_endowed_negative(100);
    let mut books = Books::new(&params).expect("the endowment still sums to the stock");

    assert_eq!(
        non_negative_check(&books, 1),
        Err(Violation::Negative {
            tick: 1,
            account: household(0),
            field: NegativeField::Cash,
            value: -100,
            posting: None,
        })
    );

    books.transfer(firm(0), household(0), Money::from_cents(10)).expect("a firm can pay ten cents");
    let expected = books.journal().first().copied().expect("one posting");

    assert_eq!(
        non_negative_check(&books, 1),
        Err(Violation::Negative {
            tick: 1,
            account: household(0),
            field: NegativeField::Cash,
            value: -90,
            posting: Some(Box::new(expected)),
        })
    );
    assert_eq!(first_posting_naming(books.journal(), household(7)), None);
}

#[test]
fn a_negative_stock_is_reported_after_a_clean_cash_column() {
    let (mut books, _) = opened();
    books.corrupt_silent_stock(household(3), FOOD, -2);
    assert_eq!(
        non_negative_check(&books, 4),
        Err(Violation::Negative {
            tick: 4,
            account: household(3),
            field: NegativeField::Stock,
            value: -2,
            posting: None,
        })
    );
}

#[test]
fn the_message_names_the_account_the_column_and_the_value() {
    let violation = Violation::Negative {
        tick: 12,
        account: firm(3),
        field: NegativeField::Stock,
        value: -7,
        posting: None,
    };
    let rendered = violation.render();

    assert!(rendered.contains("tick 12"), "{rendered}");
    assert!(rendered.contains("firm:3:0"), "{rendered}");
    assert!(rendered.contains("stock"), "{rendered}");
    assert!(rendered.contains("-7"), "{rendered}");
    assert_eq!(NegativeField::Cash.render(), "cash");
    assert_eq!(NegativeField::Stock.render(), "stock");
}

// --- zero-sum -----------------------------------------------------------------

#[test]
fn every_posting_a_real_run_records_is_well_formed() {
    let mut books = Books::new(&shipped_with_liveness(false)).expect("the books open");
    assert_eq!(zero_sum_check(&books, 0), Ok(()));
    books.produce(seller(), FOOD, 20).expect("a firm produces");
    books.transfer(buyer(), seller(), Money::from_cents(15)).expect("a household pays");
    books.exchange(buyer(), seller(), FOOD, 4, Money::from_cents(400)).expect("and buys four units");
    books.consume(buyer(), FOOD, 4).expect("and eats them");
    assert_eq!(books.journal().len(), 4, "one posting of each kind");
    assert_eq!(zero_sum_check(&books, 0), Ok(()));
    for posting in books.journal() {
        assert_eq!(well_formed(posting), Ok(()), "{}", posting.render());
    }
}

#[test]
fn the_endowment_shape_the_constructor_records_is_well_formed() {
    let cash = Posting { credit_cents: 5_000, ..one_sided(PostingKind::Endow) };
    let units = Posting { units_in: 165, ..one_sided(PostingKind::Endow) };
    assert_eq!(well_formed(&cash), Ok(()));
    assert_eq!(well_formed(&units), Ok(()));
}

#[test]
fn each_malformed_shape_is_named_exactly() {
    let cases = [
        (
            "a transfer whose cash legs disagree",
            Posting { debit_cents: 100, credit_cents: 101, ..line(PostingKind::Transfer) },
            ZeroSumDetail::CashLegsDiffer { debit_cents: 100, credit_cents: 101 },
        ),
        (
            "an exchange whose unit legs disagree",
            Posting { debit_cents: 100, credit_cents: 100, units_out: 3, units_in: 2, ..line(PostingKind::Exchange) },
            ZeroSumDetail::UnitLegsDiffer { units_out: 3, units_in: 2 },
        ),
        (
            "cash on a production, which moves only units",
            Posting { debit_cents: 0, credit_cents: 40, units_in: 5, ..one_sided(PostingKind::Produce) },
            ZeroSumDetail::CashOnAGoodsOnlyPosting { debit_cents: 0, credit_cents: 40 },
        ),
        (
            "units on a transfer, which moves only cash",
            Posting { debit_cents: 100, credit_cents: 100, units_out: 2, units_in: 2, ..line(PostingKind::Transfer) },
            ZeroSumDetail::UnitsOnACashOnlyPosting { units_out: 2, units_in: 2 },
        ),
        (
            "a transfer naming one account on both legs",
            Posting { debit_cents: 100, credit_cents: 100, ..one_sided(PostingKind::Transfer) },
            ZeroSumDetail::SelfDealing { account: buyer() },
        ),
        (
            "a consumption naming two accounts",
            Posting { units_out: 3, ..line(PostingKind::Consume) },
            ZeroSumDetail::SplitParties { debit: buyer(), credit: seller() },
        ),
        (
            "an exchange with an empty leg",
            Posting { debit_cents: 250, credit_cents: 250, ..line(PostingKind::Exchange) },
            ZeroSumDetail::EmptyExchange { cents: 250, units: 0 },
        ),
        (
            "a transfer of nothing",
            line(PostingKind::Transfer),
            ZeroSumDetail::EmptyTransfer { debit_cents: 0, credit_cents: 0 },
        ),
        (
            "an endowment carrying a debit leg",
            Posting { debit_cents: 70, credit_cents: 70, ..one_sided(PostingKind::Endow) },
            ZeroSumDetail::EndowmentHasADebitLeg { debit_cents: 70, units_out: 0 },
        ),
        (
            "a production that also releases units",
            Posting { units_out: 4, units_in: 4, ..one_sided(PostingKind::Produce) },
            ZeroSumDetail::UnitsInTheWrongDirection { kind: PostingKind::Produce, units_out: 4, units_in: 4 },
        ),
        (
            "a consumption that also receives units",
            Posting { units_out: 6, units_in: 6, ..one_sided(PostingKind::Consume) },
            ZeroSumDetail::UnitsInTheWrongDirection { kind: PostingKind::Consume, units_out: 6, units_in: 6 },
        ),
    ];

    for (_, posting, _) in &cases {
        if let Err(detail) = well_formed(posting) {
            let rendered = detail.render();
            if let ZeroSumDetail::UnitsInTheWrongDirection { units_out, units_in, .. } = detail {
                if units_out == units_in {
                    assert!(!rendered.contains("disagree"), "equal legs reported as a disagreement: {rendered}");
                }
            }
        }
    }

    for (what, posting, expected) in cases {
        assert_eq!(well_formed(&posting), Err(expected), "{what}: {}", posting.render());
    }
}

#[test]
fn an_over_credited_exchange_is_expressible_as_data_and_is_caught() {
    let over_credited =
        Posting { debit_cents: 500, credit_cents: 501, units_out: 2, units_in: 2, ..line(PostingKind::Exchange) };
    assert_eq!(
        well_formed(&over_credited),
        Err(ZeroSumDetail::CashLegsDiffer { debit_cents: 500, credit_cents: 501 })
    );
}

#[test]
fn the_public_api_refuses_the_shapes_this_check_looks_for() {
    let mut books = Books::new(&shipped_with_liveness(false)).expect("the books open");
    books.produce(seller(), FOOD, 10).expect("a firm produces");
    assert!(books.exchange(buyer(), seller(), FOOD, 0, Money::from_cents(250)).is_err());
    assert!(books.exchange(buyer(), buyer(), FOOD, 1, Money::from_cents(1)).is_err());
    assert!(books.transfer(buyer(), buyer(), Money::from_cents(1)).is_err());
    assert_eq!(books.journal().len(), 1);
    assert_eq!(zero_sum_check(&books, 0), Ok(()));
}

#[test]
fn the_violation_names_the_posting_and_what_disagreed() {
    let posting = Posting { seq: 3, debit_cents: 100, credit_cents: 101, ..line(PostingKind::Transfer) };
    let violation = Violation::ZeroSum {
        tick: 9,
        posting: Box::new(posting),
        detail: ZeroSumDetail::CashLegsDiffer { debit_cents: 100, credit_cents: 101 },
    };
    let rendered = violation.render();

    assert!(rendered.contains("tick 9"), "{rendered}");
    assert!(rendered.contains("household:0"), "{rendered}");
    assert!(rendered.contains("firm:0:0"), "{rendered}");
    assert!(rendered.contains("#3"), "{rendered}");
    assert!(rendered.contains("100"), "{rendered}");
    assert!(rendered.contains("101"), "{rendered}");
}

// --- seeded faults --------------------------------------------------------------

const TICKS: u32 = 10;
const CORRUPTED_TICK: u32 = 3;

#[test]
fn a_dropped_cent_recorded_as_a_posting_is_reported_as_a_leak_and_localised() {
    let (mut books, stock) = opened();
    let posting = books.corrupt_recorded_cash(firm(0), household(0), 100, -1);
    assert_eq!(
        check_for(CheckId::MoneyConservation, &books, 3),
        Err(Violation::MoneyConservation {
            tick: 3,
            expected_cents: stock,
            actual_cents: stock - 1,
            delta_cents: -1,
            journal_residual_cents: -1,
            posting: Some(Box::new(posting)),
        })
    );
}

#[test]
fn a_drop_written_outside_the_posting_path_names_no_posting_and_says_so() {
    let (mut books, stock) = opened();
    books.corrupt_silent_cash(household(0), -1);

    let outcome = check_for(CheckId::MoneyConservation, &books, 4);
    assert_eq!(
        outcome,
        Err(Violation::MoneyConservation {
            tick: 4,
            expected_cents: stock,
            actual_cents: stock - 1,
            delta_cents: -1,
            journal_residual_cents: 0,
            posting: None,
        })
    );

    let rendered = outcome.expect_err("the cent is gone").render();
    assert!(rendered.contains("no offending posting"), "{rendered}");
    assert!(rendered.contains("outside the posting path"), "{rendered}");
}

#[test]
fn an_over_credited_posting_is_a_leak_and_the_same_books_also_break_zero_sum() {
    let (mut books, stock) = opened();
    let posting = books.corrupt_recorded_cash(firm(0), household(0), 100, 5);

    let leak = Violation::MoneyConservation {
        tick: 7,
        expected_cents: stock,
        actual_cents: stock + 5,
        delta_cents: 5,
        journal_residual_cents: 5,
        posting: Some(Box::new(posting)),
    };
    assert_eq!(check_for(CheckId::MoneyConservation, &books, 7), Err(leak.clone()));
    assert_eq!(
        check_for(CheckId::ZeroSum, &books, 7),
        Err(Violation::ZeroSum {
            tick: 7,
            posting: Box::new(posting),
            detail: ZeroSumDetail::CashLegsDiffer { debit_cents: 100, credit_cents: 105 },
        })
    );

    let checks = CheckSet::from_params(&shipped_with_liveness(false));
    assert_eq!(checks.run(&books, 7), Err(leak));
}

#[test]
fn a_conserving_move_that_drives_an_account_negative_is_not_a_conservation_failure() {
    let (mut books, stock) = opened();
    let opening = books.cash_of(household(0)).expect("the household is one these books hold").cents();
    books.corrupt_conserving_deficit(household(0), firm(0), opening + 250);

    assert_eq!(books.total_money().cents(), stock, "the deficit was moved, not created");
    assert_eq!(check_for(CheckId::MoneyConservation, &books, 9), Ok(()));
    assert_eq!(check_for(CheckId::GoodsConservation, &books, 9), Ok(()));
    assert_eq!(
        check_for(CheckId::NonNegative, &books, 9),
        Err(Violation::Negative {
            tick: 9,
            account: household(0),
            field: NegativeField::Cash,
            value: -250,
            posting: None,
        })
    );
}

#[test]
fn a_synthesised_posting_breaks_only_the_structural_check() {
    let (mut books, stock) = opened();
    let posting = books.corrupt_appended_posting(Posting {
        seq: 0,
        kind: PostingKind::Transfer,
        debit: household(0),
        credit: firm(0),
        debit_cents: 500,
        credit_cents: 500,
        good: FOOD,
        units_out: 3,
        units_in: 3,
        cash_residual_cents: 0,
        goods_residual_units: 0,
    });

    assert_eq!(books.total_money().cents(), stock, "no balance moved");
    assert_eq!(check_for(CheckId::MoneyConservation, &books, 11), Ok(()));
    assert_eq!(check_for(CheckId::GoodsConservation, &books, 11), Ok(()));
    assert_eq!(check_for(CheckId::NonNegative, &books, 11), Ok(()));
    assert_eq!(
        check_for(CheckId::ZeroSum, &books, 11),
        Err(Violation::ZeroSum {
            tick: 11,
            posting: Box::new(posting),
            detail: ZeroSumDetail::UnitsOnACashOnlyPosting { units_out: 3, units_in: 3 },
        })
    );
}

fn run_loop(seed_the_leak: bool, reached: &mut Option<u32>) -> Result<(), Violation> {
    let params = shipped_with_liveness(false);
    let mut books = Books::new(&params).expect("the shipped endowment sums to the stock");
    let checks = CheckSet::from_params(&params);

    for tick in 0..TICKS {
        *reached = Some(tick);
        books.transfer(household(0), firm(0), Money::from_cents(1)).expect("an endowed household can pay a cent");
        if seed_the_leak && tick == CORRUPTED_TICK {
            books.corrupt_recorded_cash(firm(0), household(0), 100, -1);
        }
        checks.run(&books, tick)?;
        books.end_of_tick();
    }
    Ok(())
}

#[test]
fn a_seeded_leak_aborts_the_tick_loop_at_the_tick_it_occurred() {
    let stock = shipped_with_liveness(false).money.total_money_cents;
    let mut reached = None;
    let outcome = run_loop(true, &mut reached);

    let expected = Posting {
        seq: 1,
        kind: PostingKind::Transfer,
        debit: firm(0),
        credit: household(0),
        debit_cents: 100,
        credit_cents: 99,
        good: FOOD,
        units_out: 0,
        units_in: 0,
        cash_residual_cents: -1,
        goods_residual_units: 0,
    };

    assert_eq!(
        outcome,
        Err(Violation::MoneyConservation {
            tick: CORRUPTED_TICK,
            expected_cents: stock,
            actual_cents: stock - 1,
            delta_cents: -1,
            journal_residual_cents: -1,
            posting: Some(Box::new(expected)),
        })
    );
    assert_eq!(reached, Some(CORRUPTED_TICK));
}

#[test]
fn the_identical_loop_with_no_seeded_leak_runs_every_tick() {
    let mut reached = None;
    assert_eq!(run_loop(false, &mut reached), Ok(()));
    assert_eq!(reached, Some(TICKS - 1));
}

// --- localisation -------------------------------------------------------------

const BREAK_AT: u32 = 50;
const HEAL_AT: u32 = 120;
const BREAK_AGAIN_AT: u32 = 200;
const LONE_BREAK_AT: u32 = 10;

fn clean(books: &mut Books, count: u32) {
    for _ in 0..count {
        books.transfer(household(0), firm(0), Money::from_cents(1)).expect("an endowed household can pay a cent");
    }
}

#[test]
fn the_first_break_is_reported_even_when_a_later_posting_heals_the_residual() {
    let (mut books, stock) = opened();

    clean(&mut books, BREAK_AT);
    let early = books.corrupt_recorded_cash(firm(0), household(0), 100, 1);
    clean(&mut books, HEAL_AT - BREAK_AT - 1);
    let healed = books.corrupt_recorded_cash(firm(0), household(0), 100, -1);
    clean(&mut books, BREAK_AGAIN_AT - HEAL_AT - 1);
    let late = books.corrupt_recorded_cash(firm(0), household(0), 100, 7);

    assert_eq!(early.seq, BREAK_AT);
    assert_eq!(healed.seq, HEAL_AT);
    assert_eq!(late.seq, BREAK_AGAIN_AT);

    assert_eq!(early.cash_residual_cents, 1);
    assert_eq!(healed.cash_residual_cents, 0);
    assert_eq!(late.cash_residual_cents, 7);
    assert_eq!(books.journal()[HEAL_AT as usize - 1].cash_residual_cents, 1);
    assert_eq!(books.journal()[BREAK_AGAIN_AT as usize - 1].cash_residual_cents, 0);

    assert_eq!(first_breaking_cash_posting(books.journal()), Some(early));
    assert_ne!(first_breaking_cash_posting(books.journal()), Some(late));

    assert_eq!(
        check_for(CheckId::MoneyConservation, &books, 2),
        Err(Violation::MoneyConservation {
            tick: 2,
            expected_cents: stock,
            actual_cents: stock + 7,
            delta_cents: 7,
            journal_residual_cents: 7,
            posting: Some(Box::new(early)),
        })
    );
}

#[test]
fn the_monotone_case_reports_the_only_break() {
    let (mut books, stock) = opened();

    clean(&mut books, LONE_BREAK_AT);
    let broke = books.corrupt_recorded_cash(firm(0), household(0), 100, -1);
    clean(&mut books, LONE_BREAK_AT);

    assert_eq!(broke.seq, LONE_BREAK_AT);
    let split = LONE_BREAK_AT as usize;
    for posting in &books.journal()[..split] {
        assert_eq!(posting.cash_residual_cents, 0, "{}", posting.render());
    }
    for posting in &books.journal()[split..] {
        assert_eq!(posting.cash_residual_cents, -1, "{}", posting.render());
    }

    assert_eq!(first_breaking_cash_posting(books.journal()), Some(broke));
    assert_eq!(
        check_for(CheckId::MoneyConservation, &books, 1),
        Err(Violation::MoneyConservation {
            tick: 1,
            expected_cents: stock,
            actual_cents: stock - 1,
            delta_cents: -1,
            journal_residual_cents: -1,
            posting: Some(Box::new(broke)),
        })
    );
}
