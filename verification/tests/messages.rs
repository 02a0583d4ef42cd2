use sim::books::{Posting, PostingKind};
use sim::ids::{Account, FirmId, FirmSlot, GoodId, HouseholdId};
use sim::invariants::{MINIMUM_TRANSACTIONS_PER_TICK, NegativeField, Violation, ZeroSumDetail};

const FOOD: GoodId = GoodId(0);
const DETAIL_SHAPES: usize = 10;

fn household(index: u32) -> Account {
    Account::Household(HouseholdId(index))
}

fn firm(slot: u16) -> Account {
    Account::Firm(FirmId { slot: FirmSlot(slot), generation: 0 })
}

fn posting() -> Posting {
    Posting {
        seq: 4,
        kind: PostingKind::Transfer,
        debit: household(1),
        credit: firm(2),
        debit_cents: 100,
        credit_cents: 101,
        good: FOOD,
        units_out: 0,
        units_in: 0,
        cash_residual_cents: 1,
        goods_residual_units: 0,
    }
}

fn detail_position(detail: ZeroSumDetail) -> usize {
    match detail {
        ZeroSumDetail::CashLegsDiffer { .. } => 0,
        ZeroSumDetail::UnitLegsDiffer { .. } => 1,
        ZeroSumDetail::UnitsInTheWrongDirection { .. } => 2,
        ZeroSumDetail::CashOnAGoodsOnlyPosting { .. } => 3,
        ZeroSumDetail::UnitsOnACashOnlyPosting { .. } => 4,
        ZeroSumDetail::SelfDealing { .. } => 5,
        ZeroSumDetail::SplitParties { .. } => 6,
        ZeroSumDetail::EmptyExchange { .. } => 7,
        ZeroSumDetail::EmptyTransfer { .. } => 8,
        ZeroSumDetail::EndowmentHasADebitLeg { .. } => 9,
    }
}

fn every_detail() -> [ZeroSumDetail; DETAIL_SHAPES] {
    [
        ZeroSumDetail::CashLegsDiffer { debit_cents: 100, credit_cents: 101 },
        ZeroSumDetail::UnitLegsDiffer { units_out: 3, units_in: 4 },
        ZeroSumDetail::UnitsInTheWrongDirection { kind: PostingKind::Produce, units_out: 4, units_in: 4 },
        ZeroSumDetail::CashOnAGoodsOnlyPosting { debit_cents: 7, credit_cents: 7 },
        ZeroSumDetail::UnitsOnACashOnlyPosting { units_out: 3, units_in: 3 },
        ZeroSumDetail::SelfDealing { account: firm(2) },
        ZeroSumDetail::SplitParties { debit: household(1), credit: firm(2) },
        ZeroSumDetail::EmptyExchange { cents: 0, units: 5 },
        ZeroSumDetail::EmptyTransfer { debit_cents: 0, credit_cents: 0 },
        ZeroSumDetail::EndowmentHasADebitLeg { debit_cents: 40, units_out: 2 },
    ]
}

fn violation_position(violation: &Violation) -> usize {
    match violation {
        Violation::MoneyConservation { .. } => 0,
        Violation::GoodsConservation { .. } => 1,
        Violation::Negative { .. } => 2,
        Violation::ZeroSum { .. } => 3,
        Violation::Liveness { .. } => 4,
    }
}

fn money(posting: Option<Box<Posting>>) -> Violation {
    Violation::MoneyConservation {
        tick: 12,
        expected_cents: 2_000_000,
        actual_cents: 1_999_999,
        delta_cents: -1,
        journal_residual_cents: -1,
        posting,
    }
}

fn goods(posting: Option<Box<Posting>>) -> Violation {
    Violation::GoodsConservation {
        tick: 13,
        good: FOOD,
        produced: 3_300,
        consumed: 1_100,
        stock: 2_201,
        delta_units: -1,
        journal_residual_units: -1,
        posting,
    }
}

fn negative(posting: Option<Box<Posting>>) -> Violation {
    Violation::Negative { tick: 14, account: firm(3), field: NegativeField::Stock, value: -7, posting }
}

fn liveness() -> Violation {
    Violation::Liveness { tick: 15, counted: 0, required: MINIMUM_TRANSACTIONS_PER_TICK }
}

fn every_violation() -> Vec<Violation> {
    let mut violations = vec![
        money(Some(Box::new(posting()))),
        money(None),
        goods(Some(Box::new(posting()))),
        goods(None),
        negative(Some(Box::new(posting()))),
        negative(None),
        liveness(),
    ];
    for detail in every_detail() {
        violations.push(Violation::ZeroSum { tick: 16, posting: Box::new(posting()), detail });
    }
    violations
}

#[test]
fn the_money_conservation_message_names_the_tick_the_numbers_and_the_posting() {
    let rendered = money(Some(Box::new(posting()))).render();
    assert!(rendered.contains("tick 12"), "{rendered}");
    assert!(rendered.contains("2000000"), "{rendered}");
    assert!(rendered.contains("1999999"), "{rendered}");
    assert!(rendered.contains(&posting().render()), "{rendered}");
    assert!(rendered.contains(&household(1).render()), "{rendered}");

    let silent = money(None).render();
    assert!(silent.contains("tick 12"), "{silent}");
    assert!(silent.contains("no offending posting"), "{silent}");
    assert!(!silent.contains(&posting().render()), "{silent}");
}

#[test]
fn the_goods_conservation_message_names_the_tick_the_good_and_the_posting() {
    let rendered = goods(Some(Box::new(posting()))).render();
    assert!(rendered.contains("tick 13"), "{rendered}");
    assert!(rendered.contains(&FOOD.render()), "{rendered}");
    assert!(rendered.contains("3300"), "{rendered}");
    assert!(rendered.contains("2201"), "{rendered}");
    assert!(rendered.contains(&posting().render()), "{rendered}");

    let silent = goods(None).render();
    assert!(silent.contains("tick 13"), "{silent}");
    assert!(silent.contains("no offending posting"), "{silent}");
    assert!(!silent.contains(&posting().render()), "{silent}");
}

#[test]
fn the_negative_message_names_the_tick_the_account_the_column_and_the_value() {
    let rendered = negative(Some(Box::new(posting()))).render();
    assert!(rendered.contains("tick 14"), "{rendered}");
    assert!(rendered.contains(&firm(3).render()), "{rendered}");
    assert!(rendered.contains(&NegativeField::Stock.render()), "{rendered}");
    assert!(rendered.contains("-7"), "{rendered}");
    assert!(rendered.contains(&posting().render()), "{rendered}");

    let silent = negative(None).render();
    assert!(silent.contains("no offending posting"), "{silent}");
    assert!(!silent.contains(&posting().render()), "{silent}");
}

#[test]
fn the_zero_sum_message_names_the_tick_the_posting_and_what_disagreed() {
    let details = every_detail();
    assert_eq!(details.len(), DETAIL_SHAPES);
    assert_eq!(
        details.iter().copied().map(detail_position).collect::<Vec<usize>>(),
        (0..DETAIL_SHAPES).collect::<Vec<usize>>()
    );

    for detail in details {
        let violation = Violation::ZeroSum { tick: 16, posting: Box::new(posting()), detail };
        let rendered = violation.render();
        assert!(rendered.contains("tick 16"), "{rendered}");
        assert!(rendered.contains(&posting().render()), "{rendered}");
        assert!(rendered.contains(&detail.render()), "{rendered}");
    }

    let self_dealing = Violation::ZeroSum {
        tick: 16,
        posting: Box::new(posting()),
        detail: ZeroSumDetail::SelfDealing { account: firm(2) },
    }
    .render();
    assert!(self_dealing.contains(&firm(2).render()), "{self_dealing}");

    let split = Violation::ZeroSum {
        tick: 16,
        posting: Box::new(posting()),
        detail: ZeroSumDetail::SplitParties { debit: household(1), credit: firm(2) },
    }
    .render();
    assert!(split.contains(&household(1).render()), "{split}");
    assert!(split.contains(&firm(2).render()), "{split}");
}

#[test]
fn the_liveness_message_names_the_counts_and_invents_no_posting() {
    let rendered = liveness().render();
    assert!(rendered.contains("tick 15"), "{rendered}");
    assert!(rendered.contains("0 transactions"), "{rendered}");
    assert!(rendered.contains(&format!("at least {MINIMUM_TRANSACTIONS_PER_TICK} required")), "{rendered}");
    assert!(!rendered.contains(&posting().render()), "{rendered}");
}

#[test]
fn every_variant_is_exercised_and_no_message_carries_a_path() {
    let violations = every_violation();

    let mut covered: Vec<usize> = violations.iter().map(violation_position).collect();
    covered.sort_unstable();
    covered.dedup();
    assert_eq!(covered, (0..5).collect::<Vec<usize>>());

    for violation in &violations {
        let rendered = violation.render();
        assert!(!rendered.contains('/'), "a halt message must carry no path: {rendered}");
        assert!(!rendered.contains('\\'), "a halt message must carry no path: {rendered}");
    }
}

#[test]
fn the_rendered_forms_are_pinned_byte_for_byte() {
    assert_eq!(
        liveness().render(),
        "tick 15: liveness \u{2014} 0 transactions recorded, at least 1 required; no posting, which is the violation"
    );
    assert_eq!(
        ZeroSumDetail::UnitsInTheWrongDirection { kind: PostingKind::Produce, units_out: 4, units_in: 4 }.render(),
        "a production also released units: 4 left and 4 arrived"
    );
    assert_eq!(
        money(None).render(),
        "tick 12: money conservation broken by -1 cents (books hold 1999999 cents against an opening stock of \
         2000000 cents; journal residual -1 cents); no offending posting: every posting in the tick's journal \
         conserves, so the discrepancy was written outside the posting path"
    );
}
