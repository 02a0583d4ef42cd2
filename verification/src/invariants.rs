//! The invariant phase: an ordered set of checks that reads the books and
//! returns a `Result`.
//!
//! The set is built once, from the parameters: [`CheckSet::from_params`] is
//! the one place that reads the liveness switch. The order is part of the
//! contract, because one corruption can trip more than one check: money
//! conservation, goods conservation, non-negativity, zero-sum, liveness. The
//! first violation wins.
//!
//! The checks read the books through shared references and mutate nothing.
//! Every amount here is an integer count of cents or of units.

use vstd::prelude::*;
use crate::books::{
    Books,
    BooksView,
    Posting,
    PostingKind,
    construction_refusal,
    draft,
    law_construction_conserves,
    law_consume_conserves,
    law_end_of_tick_keeps_the_books,
    law_exchange_conserves,
    law_produce_conserves,
    law_transfer_conserves,
    lemma_account_at,
    lemma_with_cash,
    lemma_with_stock,
    only_good,
    opening_view,
    posting_text,
};
use crate::config::Params;
use crate::ids::{Account, FirmSlot, GoodId, account_text, good_text};
use crate::numeric::{clamp_i64, clamp_u32, lemma_nonnegative_prefix_fit, prefix_sums_fit, saturating_sub_i64};
use crate::text::{decimal, empty_text, push_signed, push_text};

verus! {

broadcast use crate::money::Money::lemma_from_cents;

/// How many cash transactions a tick must record for the liveness check to
/// pass. The definition of the check, not a tunable quantity.
pub const MINIMUM_TRANSACTIONS_PER_TICK: u32 = 1;

/// Which column of an account went negative. A payroll is an unsigned count,
/// so a negative headcount is not representable and has no variant.
#[derive(Debug, Clone, Copy, PartialEq, Eq, PartialOrd, Ord, Structural)]
pub enum NegativeField {
    /// Cents held by an account.
    Cash,
    /// Units of a good held by an account.
    Stock,
}

/// Exactly what was wrong with a posting's shape.
#[derive(Debug, Clone, Copy, PartialEq, Eq, Structural)]
pub enum ZeroSumDetail {
    /// The cents that left the debit account are not the cents that arrived.
    CashLegsDiffer { debit_cents: i64, credit_cents: i64 },
    /// The units that left are not the units that arrived, on an exchange.
    UnitLegsDiffer { units_out: i64, units_in: i64 },
    /// A one-party goods posting moved units in the direction its kind does
    /// not permit.
    UnitsInTheWrongDirection { kind: PostingKind, units_out: i64, units_in: i64 },
    /// Cash on a posting whose kind moves only units.
    CashOnAGoodsOnlyPosting { debit_cents: i64, credit_cents: i64 },
    /// Units on a posting whose kind moves only cash.
    UnitsOnACashOnlyPosting { units_out: i64, units_in: i64 },
    /// A two-party kind names one account on both legs.
    SelfDealing { account: Account },
    /// A one-party kind names two different accounts.
    SplitParties { debit: Account, credit: Account },
    /// An exchange with an empty leg.
    EmptyExchange { cents: i64, units: i64 },
    /// A transfer with no cash on either leg.
    EmptyTransfer { debit_cents: i64, credit_cents: i64 },
    /// An endowment carries a debit leg.
    EndowmentHasADebitLeg { debit_cents: i64, units_out: i64 },
}

/// The books are wrong. Always a defect, never an economic event.
///
/// The offending posting is owned, because the journal it came from is
/// cleared at the end of the tick, and optional where a discrepancy the
/// journal does not describe is a reachable case.
#[derive(Debug, Clone, PartialEq, Eq)]
pub enum Violation {
    /// The cents the books hold do not match the opening stock, or the
    /// journal's running residual is not zero, or both.
    MoneyConservation {
        tick: u32,
        expected_cents: i64,
        actual_cents: i64,
        delta_cents: i64,
        journal_residual_cents: i64,
        posting: Option<Box<Posting>>,
    },
    /// `produced − consumed − Σstock` is not zero for a good, or the
    /// journal's running goods residual is not zero, or both.
    GoodsConservation {
        tick: u32,
        good: GoodId,
        produced: i64,
        consumed: i64,
        stock: i64,
        delta_units: i64,
        journal_residual_units: i64,
        posting: Option<Box<Posting>>,
    },
    /// An account holds a negative amount of cash or of a good.
    Negative {
        tick: u32,
        account: Account,
        field: NegativeField,
        value: i64,
        posting: Option<Box<Posting>>,
    },
    /// A posting is not well formed for its kind.
    ZeroSum { tick: u32, posting: Box<Posting>, detail: ZeroSumDetail },
    /// The tick recorded fewer cash transactions than the minimum.
    Liveness { tick: u32, counted: u32, required: u32 },
}

/// Which check a [`Violation`] came from, declared in the order the checks
/// run, so the derived order agrees with the run order.
#[derive(Debug, Clone, Copy, PartialEq, Eq, PartialOrd, Ord, Hash, Structural)]
pub enum CheckId {
    MoneyConservation,
    GoodsConservation,
    NonNegative,
    ZeroSum,
    Liveness,
}

// ---------------------------------------------------------------------------
// Rendered forms
// ---------------------------------------------------------------------------

/// The spelling of a column.
pub open spec fn field_text(f: NegativeField) -> Seq<char> {
    match f {
        NegativeField::Cash => "cash"@,
        NegativeField::Stock => "stock"@,
    }
}

/// What a one-party goods posting did wrong, by kind.
pub open spec fn direction_text(k: PostingKind) -> Seq<char> {
    match k {
        PostingKind::Produce => "a production also released units"@,
        PostingKind::Consume => "a consumption also received units"@,
        PostingKind::Endow => "an endowment released units"@,
        PostingKind::Transfer => "a transfer moved units"@,
        PostingKind::Exchange => "an exchange moved units one-sidedly"@,
    }
}

/// The rendered form of a shape fault: integer amounts and identities only.
#[verifier::opaque]
pub open spec fn detail_text(d: ZeroSumDetail) -> Seq<char> {
    match d {
        ZeroSumDetail::CashLegsDiffer { debit_cents, credit_cents } => "the cash legs disagree: "@
            + decimal(debit_cents as int) + " cents left the debit account but "@ + decimal(
            credit_cents as int,
        ) + " cents arrived at the credit account"@,
        ZeroSumDetail::UnitLegsDiffer { units_out, units_in } => "the unit legs disagree: "@
            + decimal(units_out as int) + " units left but "@ + decimal(units_in as int)
            + " arrived"@,
        ZeroSumDetail::UnitsInTheWrongDirection { kind, units_out, units_in } => direction_text(
            kind,
        ) + ": "@ + decimal(units_out as int) + " left and "@ + decimal(units_in as int)
            + " arrived"@,
        ZeroSumDetail::CashOnAGoodsOnlyPosting { debit_cents, credit_cents } =>
            "cash on a posting that moves only units: "@ + decimal(debit_cents as int) + " out, "@
            + decimal(credit_cents as int) + " in"@,
        ZeroSumDetail::UnitsOnACashOnlyPosting { units_out, units_in } =>
            "units on a posting that moves only cash: "@ + decimal(units_out as int) + " out, "@
            + decimal(units_in as int) + " in"@,
        ZeroSumDetail::SelfDealing { account } => "a two-party posting names "@ + account_text(
            account,
        ) + " on both legs, so nothing changed hands"@,
        ZeroSumDetail::SplitParties { debit, credit } => "a one-party posting names "@
            + account_text(debit) + " on the debit leg and "@ + account_text(credit)
            + " on the credit leg"@,
        ZeroSumDetail::EmptyExchange { cents, units } => "an exchange with an empty leg: "@
            + decimal(cents as int) + " cents against "@ + decimal(units as int) + " units"@,
        ZeroSumDetail::EmptyTransfer { debit_cents, credit_cents } => "a transfer of nothing: "@
            + decimal(debit_cents as int) + " cents left the debit account and "@ + decimal(
            credit_cents as int,
        ) + " cents arrived, so nothing changed hands"@,
        ZeroSumDetail::EndowmentHasADebitLeg { debit_cents, units_out } =>
            "an endowment carries a debit leg: "@ + decimal(debit_cents as int) + " cents and "@
            + decimal(units_out as int) + " units left an account inside the books"@,
    }
}

/// How a violation names the posting it found, or says there is none.
pub open spec fn posting_clause(p: Option<Box<Posting>>) -> Seq<char> {
    match p {
        Some(b) => "offending posting "@ + posting_text(*b),
        None =>
            "no offending posting: every posting in the tick's journal conserves, so the discrepancy was written outside the posting path"@,
    }
}

/// The rendered form of a money conservation violation.
pub open spec fn money_text(
    tick: u32,
    expected_cents: i64,
    actual_cents: i64,
    delta_cents: i64,
    journal_residual_cents: i64,
    posting: Option<Box<Posting>>,
) -> Seq<char> {
    "tick "@ + decimal(tick as int) + ": money conservation broken by "@ + decimal(
        delta_cents as int,
    ) + " cents (books hold "@ + decimal(actual_cents as int)
        + " cents against an opening stock of "@ + decimal(expected_cents as int)
        + " cents; journal residual "@ + decimal(journal_residual_cents as int) + " cents); "@
        + posting_clause(posting)
}

/// The rendered form of a goods conservation violation.
pub open spec fn goods_text(
    tick: u32,
    good: GoodId,
    produced: i64,
    consumed: i64,
    stock: i64,
    delta_units: i64,
    journal_residual_units: i64,
    posting: Option<Box<Posting>>,
) -> Seq<char> {
    "tick "@ + decimal(tick as int) + ": goods conservation broken for "@ + good_text(good)
        + " by "@ + decimal(delta_units as int) + " units (produced "@ + decimal(produced as int)
        + ", consumed "@ + decimal(consumed as int) + ", held "@ + decimal(stock as int)
        + "; journal residual "@ + decimal(journal_residual_units as int) + " units); "@
        + posting_clause(posting)
}

/// The rendered form of a non-negativity violation.
pub open spec fn negative_text(
    tick: u32,
    account: Account,
    field: NegativeField,
    value: i64,
    posting: Option<Box<Posting>>,
) -> Seq<char> {
    "tick "@ + decimal(tick as int) + ": "@ + account_text(account) + " holds "@ + decimal(
        value as int,
    ) + " in "@ + field_text(field) + ", which is not a quantity an account can hold; "@
        + posting_clause(posting)
}

/// The rendered form of a zero-sum violation.
pub open spec fn zero_sum_text(tick: u32, posting: Posting, detail: ZeroSumDetail) -> Seq<char> {
    "tick "@ + decimal(tick as int) + ": zero-sum broken \u{2014} "@ + detail_text(detail)
        + "; offending posting "@ + posting_text(posting)
}

/// The rendered form of a liveness violation.
pub open spec fn liveness_text(tick: u32, counted: u32, required: u32) -> Seq<char> {
    "tick "@ + decimal(tick as int) + ": liveness \u{2014} "@ + decimal(counted as int)
        + " transactions recorded, at least "@ + decimal(required as int)
        + " required; no posting, which is the violation"@
}

/// The rendered form of a violation: the tick, the numbers, the identities
/// and the posting, and nothing that names a path or a host.
pub open spec fn violation_text(v: Violation) -> Seq<char> {
    match v {
        Violation::MoneyConservation {
            tick,
            expected_cents,
            actual_cents,
            delta_cents,
            journal_residual_cents,
            posting,
        } => money_text(
            tick,
            expected_cents,
            actual_cents,
            delta_cents,
            journal_residual_cents,
            posting,
        ),
        Violation::GoodsConservation {
            tick,
            good,
            produced,
            consumed,
            stock,
            delta_units,
            journal_residual_units,
            posting,
        } => goods_text(
            tick,
            good,
            produced,
            consumed,
            stock,
            delta_units,
            journal_residual_units,
            posting,
        ),
        Violation::Negative { tick, account, field, value, posting } => negative_text(
            tick,
            account,
            field,
            value,
            posting,
        ),
        Violation::ZeroSum { tick, posting, detail } => zero_sum_text(tick, *posting, detail),
        Violation::Liveness { tick, counted, required } => liveness_text(tick, counted, required),
    }
}

impl NegativeField {
    /// Appends the column's spelling.
    pub fn write_to(&self, out: &mut String)
        ensures
            final(out)@ == old(out)@ + field_text(*self),
    {
        match self {
            NegativeField::Cash => push_text(out, "cash"),
            NegativeField::Stock => push_text(out, "stock"),
        }
    }

    /// The column's spelling: `cash` or `stock`.
    pub fn render(&self) -> (s: String)
        ensures
            s@ == field_text(*self),
    {
        let mut s = empty_text();
        self.write_to(&mut s);
        s
    }
}

impl ZeroSumDetail {
    /// Appends the rendered form.
    pub fn write_to(&self, out: &mut String)
        ensures
            final(out)@ == old(out)@ + detail_text(*self),
    {
        let ghost start = out@;
        proof {
            reveal(detail_text);
        }
        match *self {
            ZeroSumDetail::CashLegsDiffer { debit_cents, credit_cents } => {
                push_text(out, "the cash legs disagree: ");
                push_signed(out, debit_cents as i128);
                push_text(out, " cents left the debit account but ");
                push_signed(out, credit_cents as i128);
                push_text(out, " cents arrived at the credit account");
            },
            ZeroSumDetail::UnitLegsDiffer { units_out, units_in } => {
                push_text(out, "the unit legs disagree: ");
                push_signed(out, units_out as i128);
                push_text(out, " units left but ");
                push_signed(out, units_in as i128);
                push_text(out, " arrived");
            },
            ZeroSumDetail::UnitsInTheWrongDirection { kind, units_out, units_in } => {
                match kind {
                    PostingKind::Produce => push_text(out, "a production also released units"),
                    PostingKind::Consume => push_text(out, "a consumption also received units"),
                    PostingKind::Endow => push_text(out, "an endowment released units"),
                    PostingKind::Transfer => push_text(out, "a transfer moved units"),
                    PostingKind::Exchange => push_text(out, "an exchange moved units one-sidedly"),
                }
                push_text(out, ": ");
                push_signed(out, units_out as i128);
                push_text(out, " left and ");
                push_signed(out, units_in as i128);
                push_text(out, " arrived");
            },
            ZeroSumDetail::CashOnAGoodsOnlyPosting { debit_cents, credit_cents } => {
                push_text(out, "cash on a posting that moves only units: ");
                push_signed(out, debit_cents as i128);
                push_text(out, " out, ");
                push_signed(out, credit_cents as i128);
                push_text(out, " in");
            },
            ZeroSumDetail::UnitsOnACashOnlyPosting { units_out, units_in } => {
                push_text(out, "units on a posting that moves only cash: ");
                push_signed(out, units_out as i128);
                push_text(out, " out, ");
                push_signed(out, units_in as i128);
                push_text(out, " in");
            },
            ZeroSumDetail::SelfDealing { account } => {
                push_text(out, "a two-party posting names ");
                account.write_to(out);
                push_text(out, " on both legs, so nothing changed hands");
            },
            ZeroSumDetail::SplitParties { debit, credit } => {
                push_text(out, "a one-party posting names ");
                debit.write_to(out);
                push_text(out, " on the debit leg and ");
                credit.write_to(out);
                push_text(out, " on the credit leg");
            },
            ZeroSumDetail::EmptyExchange { cents, units } => {
                push_text(out, "an exchange with an empty leg: ");
                push_signed(out, cents as i128);
                push_text(out, " cents against ");
                push_signed(out, units as i128);
                push_text(out, " units");
            },
            ZeroSumDetail::EmptyTransfer { debit_cents, credit_cents } => {
                push_text(out, "a transfer of nothing: ");
                push_signed(out, debit_cents as i128);
                push_text(out, " cents left the debit account and ");
                push_signed(out, credit_cents as i128);
                push_text(out, " cents arrived, so nothing changed hands");
            },
            ZeroSumDetail::EndowmentHasADebitLeg { debit_cents, units_out } => {
                push_text(out, "an endowment carries a debit leg: ");
                push_signed(out, debit_cents as i128);
                push_text(out, " cents and ");
                push_signed(out, units_out as i128);
                push_text(out, " units left an account inside the books");
            },
        }
        assert(out@ =~= start + detail_text(*self));
    }

    /// The rendered form.
    pub fn render(&self) -> (s: String)
        ensures
            s@ == detail_text(*self),
    {
        let mut s = empty_text();
        self.write_to(&mut s);
        s
    }
}

/// Appends the clause naming a violation's posting, or saying there is none.
fn write_posting_clause(out: &mut String, posting: &Option<Box<Posting>>)
    ensures
        final(out)@ == old(out)@ + posting_clause(*posting),
{
    match posting {
        Some(p) => {
            push_text(out, "offending posting ");
            p.write_to(out);
        },
        None => {
            push_text(
                out,
                "no offending posting: every posting in the tick's journal conserves, so the discrepancy was written outside the posting path",
            );
        },
    }
}

fn write_money(
    out: &mut String,
    tick: u32,
    expected_cents: i64,
    actual_cents: i64,
    delta_cents: i64,
    journal_residual_cents: i64,
    posting: &Option<Box<Posting>>,
)
    ensures
        final(out)@ == old(out)@ + money_text(
            tick,
            expected_cents,
            actual_cents,
            delta_cents,
            journal_residual_cents,
            *posting,
        ),
{
    let ghost start = out@;
    push_text(out, "tick ");
    push_signed(out, tick as i128);
    push_text(out, ": money conservation broken by ");
    push_signed(out, delta_cents as i128);
    push_text(out, " cents (books hold ");
    push_signed(out, actual_cents as i128);
    push_text(out, " cents against an opening stock of ");
    push_signed(out, expected_cents as i128);
    push_text(out, " cents; journal residual ");
    push_signed(out, journal_residual_cents as i128);
    push_text(out, " cents); ");
    write_posting_clause(out, posting);
    assert(out@ =~= start + money_text(
        tick,
        expected_cents,
        actual_cents,
        delta_cents,
        journal_residual_cents,
        *posting,
    ));
}

#[verifier::rlimit(30)]
fn write_goods(
    out: &mut String,
    tick: u32,
    good: GoodId,
    produced: i64,
    consumed: i64,
    stock: i64,
    delta_units: i64,
    journal_residual_units: i64,
    posting: &Option<Box<Posting>>,
)
    ensures
        final(out)@ == old(out)@ + goods_text(
            tick,
            good,
            produced,
            consumed,
            stock,
            delta_units,
            journal_residual_units,
            *posting,
        ),
{
    let ghost start = out@;
    push_text(out, "tick ");
    push_signed(out, tick as i128);
    push_text(out, ": goods conservation broken for ");
    good.write_to(out);
    push_text(out, " by ");
    push_signed(out, delta_units as i128);
    push_text(out, " units (produced ");
    push_signed(out, produced as i128);
    push_text(out, ", consumed ");
    push_signed(out, consumed as i128);
    push_text(out, ", held ");
    push_signed(out, stock as i128);
    push_text(out, "; journal residual ");
    push_signed(out, journal_residual_units as i128);
    push_text(out, " units); ");
    write_posting_clause(out, posting);
    assert(out@ =~= start + goods_text(
        tick,
        good,
        produced,
        consumed,
        stock,
        delta_units,
        journal_residual_units,
        *posting,
    ));
}

fn write_negative(
    out: &mut String,
    tick: u32,
    account: Account,
    field: NegativeField,
    value: i64,
    posting: &Option<Box<Posting>>,
)
    ensures
        final(out)@ == old(out)@ + negative_text(tick, account, field, value, *posting),
{
    let ghost start = out@;
    push_text(out, "tick ");
    push_signed(out, tick as i128);
    push_text(out, ": ");
    account.write_to(out);
    push_text(out, " holds ");
    push_signed(out, value as i128);
    push_text(out, " in ");
    field.write_to(out);
    push_text(out, ", which is not a quantity an account can hold; ");
    write_posting_clause(out, posting);
    assert(out@ =~= start + negative_text(tick, account, field, value, *posting));
}

fn write_zero_sum(out: &mut String, tick: u32, posting: &Posting, detail: ZeroSumDetail)
    ensures
        final(out)@ == old(out)@ + zero_sum_text(tick, *posting, detail),
{
    let ghost start = out@;
    push_text(out, "tick ");
    push_signed(out, tick as i128);
    push_text(out, ": zero-sum broken \u{2014} ");
    detail.write_to(out);
    push_text(out, "; offending posting ");
    posting.write_to(out);
    assert(out@ =~= start + zero_sum_text(tick, *posting, detail));
}

fn write_liveness(out: &mut String, tick: u32, counted: u32, required: u32)
    ensures
        final(out)@ == old(out)@ + liveness_text(tick, counted, required),
{
    let ghost start = out@;
    push_text(out, "tick ");
    push_signed(out, tick as i128);
    push_text(out, ": liveness \u{2014} ");
    push_signed(out, counted as i128);
    push_text(out, " transactions recorded, at least ");
    push_signed(out, required as i128);
    push_text(out, " required; no posting, which is the violation");
    assert(out@ =~= start + liveness_text(tick, counted, required));
}

impl Violation {
    /// Appends the rendered form.
    pub fn write_to(&self, out: &mut String)
        ensures
            final(out)@ == old(out)@ + violation_text(*self),
    {
        match self {
            Violation::MoneyConservation {
                tick,
                expected_cents,
                actual_cents,
                delta_cents,
                journal_residual_cents,
                posting,
            } => write_money(
                out,
                *tick,
                *expected_cents,
                *actual_cents,
                *delta_cents,
                *journal_residual_cents,
                posting,
            ),
            Violation::GoodsConservation {
                tick,
                good,
                produced,
                consumed,
                stock,
                delta_units,
                journal_residual_units,
                posting,
            } => write_goods(
                out,
                *tick,
                *good,
                *produced,
                *consumed,
                *stock,
                *delta_units,
                *journal_residual_units,
                posting,
            ),
            Violation::Negative { tick, account, field, value, posting } => write_negative(
                out,
                *tick,
                *account,
                *field,
                *value,
                posting,
            ),
            Violation::ZeroSum { tick, posting, detail } => write_zero_sum(
                out,
                *tick,
                posting,
                *detail,
            ),
            Violation::Liveness { tick, counted, required } => write_liveness(
                out,
                *tick,
                *counted,
                *required,
            ),
        }
    }

    /// The rendered form, as a halt message.
    pub fn render(&self) -> (s: String)
        ensures
            s@ == violation_text(*self),
    {
        let mut s = empty_text();
        self.write_to(&mut s);
        s
    }
}

// ---------------------------------------------------------------------------
// The scans
// ---------------------------------------------------------------------------

/// The first posting whose running cash residual is non-zero.
pub open spec fn first_cash_break(s: Seq<Posting>) -> Option<Posting>
    decreases s.len(),
{
    if s.len() == 0 {
        None
    } else if s[0].cash_residual_cents != 0 {
        Some(s[0])
    } else {
        first_cash_break(s.drop_first())
    }
}

/// The first posting whose running goods residual is non-zero.
pub open spec fn first_goods_break(s: Seq<Posting>) -> Option<Posting>
    decreases s.len(),
{
    if s.len() == 0 {
        None
    } else if s[0].goods_residual_units != 0 {
        Some(s[0])
    } else {
        first_goods_break(s.drop_first())
    }
}

/// The first posting naming `account` on either leg.
pub open spec fn first_naming(s: Seq<Posting>, account: Account) -> Option<Posting>
    decreases s.len(),
{
    if s.len() == 0 {
        None
    } else if s[0].debit == account || s[0].credit == account {
        Some(s[0])
    } else {
        first_naming(s.drop_first(), account)
    }
}

/// The posting, owned, if there is one.
pub open spec fn boxed(p: Option<Posting>) -> Option<Box<Posting>> {
    match p {
        Some(q) => Some(Box::new(q)),
        None => None,
    }
}

/// The first posting in the tick whose running cash residual is non-zero.
///
/// A forward linear scan: residuals cancel, so a search that discards half
/// the journal could report a later posting than the first break.
pub fn first_breaking_cash_posting(journal: &[Posting]) -> (r: Option<Posting>)
    ensures
        r == first_cash_break(journal@),
{
    let mut i: usize = 0;
    assert(journal@.subrange(0, journal@.len() as int) =~= journal@);
    while i < journal.len()
        invariant
            i <= journal.len(),
            first_cash_break(journal@) == first_cash_break(journal@.subrange(i as int, journal@.len() as int)),
        decreases journal.len() - i,
    {
        let ghost rest = journal@.subrange(i as int, journal@.len() as int);
        assert(rest.drop_first() =~= journal@.subrange(i + 1, journal@.len() as int));
        if journal[i].cash_residual_cents != 0 {
            return Some(journal[i]);
        }
        i = i + 1;
    }
    None
}

/// The first posting in the tick whose running goods residual is non-zero,
/// by the same forward scan.
pub fn first_breaking_goods_posting(journal: &[Posting]) -> (r: Option<Posting>)
    ensures
        r == first_goods_break(journal@),
{
    let mut i: usize = 0;
    assert(journal@.subrange(0, journal@.len() as int) =~= journal@);
    while i < journal.len()
        invariant
            i <= journal.len(),
            first_goods_break(journal@) == first_goods_break(journal@.subrange(i as int, journal@.len() as int)),
        decreases journal.len() - i,
    {
        let ghost rest = journal@.subrange(i as int, journal@.len() as int);
        assert(rest.drop_first() =~= journal@.subrange(i + 1, journal@.len() as int));
        if journal[i].goods_residual_units != 0 {
            return Some(journal[i]);
        }
        i = i + 1;
    }
    None
}

/// The first posting in the tick naming `account` on either leg, by the same
/// forward scan. `None` is a real answer: a balance driven negative outside
/// the posting path has no posting to blame.
pub fn first_posting_naming(journal: &[Posting], account: Account) -> (r: Option<Posting>)
    ensures
        r == first_naming(journal@, account),
{
    let mut i: usize = 0;
    assert(journal@.subrange(0, journal@.len() as int) =~= journal@);
    while i < journal.len()
        invariant
            i <= journal.len(),
            first_naming(journal@, account) == first_naming(journal@.subrange(i as int, journal@.len() as int), account),
        decreases journal.len() - i,
    {
        let ghost rest = journal@.subrange(i as int, journal@.len() as int);
        assert(rest.drop_first() =~= journal@.subrange(i + 1, journal@.len() as int));
        if journal[i].debit == account || journal[i].credit == account {
            return Some(journal[i]);
        }
        i = i + 1;
    }
    None
}

fn boxed_posting(p: Option<Posting>) -> (b: Option<Box<Posting>>)
    ensures
        b == boxed(p),
{
    match p {
        Some(q) => Some(Box::new(q)),
        None => None,
    }
}

// ---------------------------------------------------------------------------
// The shape rule
// ---------------------------------------------------------------------------

/// What is wrong with a posting's shape for its kind, clauses in the order
/// written, or `None` when it is well formed.
///
/// A transfer moves equal, non-zero cash between two distinct accounts and no
/// units; an exchange moves equal cash one way and equal units the other
/// between two distinct accounts, neither leg empty; a production or a
/// consumption names one account, carries no cash and moves units in its one
/// direction; an endowment names one account and carries no debit leg.
pub open spec fn shape_fault(p: Posting) -> Option<ZeroSumDetail> {
    match p.kind {
        PostingKind::Transfer => if p.debit == p.credit {
            Some(ZeroSumDetail::SelfDealing { account: p.debit })
        } else if p.units_out != 0 || p.units_in != 0 {
            Some(ZeroSumDetail::UnitsOnACashOnlyPosting { units_out: p.units_out, units_in: p.units_in })
        } else if p.debit_cents != p.credit_cents {
            Some(ZeroSumDetail::CashLegsDiffer { debit_cents: p.debit_cents, credit_cents: p.credit_cents })
        } else if p.debit_cents == 0 {
            Some(ZeroSumDetail::EmptyTransfer { debit_cents: p.debit_cents, credit_cents: p.credit_cents })
        } else {
            None
        },
        PostingKind::Exchange => if p.debit == p.credit {
            Some(ZeroSumDetail::SelfDealing { account: p.debit })
        } else if p.debit_cents != p.credit_cents {
            Some(ZeroSumDetail::CashLegsDiffer { debit_cents: p.debit_cents, credit_cents: p.credit_cents })
        } else if p.units_out != p.units_in {
            Some(ZeroSumDetail::UnitLegsDiffer { units_out: p.units_out, units_in: p.units_in })
        } else if p.debit_cents == 0 || p.units_out == 0 {
            Some(ZeroSumDetail::EmptyExchange { cents: p.debit_cents, units: p.units_out })
        } else {
            None
        },
        PostingKind::Produce => if p.debit != p.credit {
            Some(ZeroSumDetail::SplitParties { debit: p.debit, credit: p.credit })
        } else if p.debit_cents != 0 || p.credit_cents != 0 {
            Some(ZeroSumDetail::CashOnAGoodsOnlyPosting { debit_cents: p.debit_cents, credit_cents: p.credit_cents })
        } else if p.units_out != 0 {
            Some(ZeroSumDetail::UnitsInTheWrongDirection { kind: p.kind, units_out: p.units_out, units_in: p.units_in })
        } else {
            None
        },
        PostingKind::Consume => if p.debit != p.credit {
            Some(ZeroSumDetail::SplitParties { debit: p.debit, credit: p.credit })
        } else if p.debit_cents != 0 || p.credit_cents != 0 {
            Some(ZeroSumDetail::CashOnAGoodsOnlyPosting { debit_cents: p.debit_cents, credit_cents: p.credit_cents })
        } else if p.units_in != 0 {
            Some(ZeroSumDetail::UnitsInTheWrongDirection { kind: p.kind, units_out: p.units_out, units_in: p.units_in })
        } else {
            None
        },
        PostingKind::Endow => if p.debit != p.credit {
            Some(ZeroSumDetail::SplitParties { debit: p.debit, credit: p.credit })
        } else if p.debit_cents != 0 || p.units_out != 0 {
            Some(ZeroSumDetail::EndowmentHasADebitLeg { debit_cents: p.debit_cents, units_out: p.units_out })
        } else {
            None
        },
    }
}

/// The first malformed posting of a journal, with what is wrong with it.
pub open spec fn first_malformed(s: Seq<Posting>) -> Option<(Posting, ZeroSumDetail)>
    decreases s.len(),
{
    if s.len() == 0 {
        None
    } else {
        match shape_fault(s[0]) {
            Some(d) => Some((s[0], d)),
            None => first_malformed(s.drop_first()),
        }
    }
}

/// A kind that moves something between two parties must name two of them.
fn two_party(posting: &Posting) -> (r: Result<(), ZeroSumDetail>)
    ensures
        posting.debit == posting.credit ==> r == Err::<(), ZeroSumDetail>(
            ZeroSumDetail::SelfDealing { account: posting.debit },
        ),
        posting.debit != posting.credit ==> r is Ok,
{
    if posting.debit == posting.credit {
        return Err(ZeroSumDetail::SelfDealing { account: posting.debit });
    }
    Ok(())
}

/// A kind that acts on one account must name the same one on both legs.
fn one_party(posting: &Posting) -> (r: Result<(), ZeroSumDetail>)
    ensures
        posting.debit != posting.credit ==> r == Err::<(), ZeroSumDetail>(
            ZeroSumDetail::SplitParties { debit: posting.debit, credit: posting.credit },
        ),
        posting.debit == posting.credit ==> r is Ok,
{
    if posting.debit != posting.credit {
        return Err(ZeroSumDetail::SplitParties { debit: posting.debit, credit: posting.credit });
    }
    Ok(())
}

/// A kind that moves only units must carry no cash on either leg.
fn no_cash(posting: &Posting) -> (r: Result<(), ZeroSumDetail>)
    ensures
        (posting.debit_cents != 0 || posting.credit_cents != 0) ==> r == Err::<(), ZeroSumDetail>(
            ZeroSumDetail::CashOnAGoodsOnlyPosting {
                debit_cents: posting.debit_cents,
                credit_cents: posting.credit_cents,
            },
        ),
        (posting.debit_cents == 0 && posting.credit_cents == 0) ==> r is Ok,
{
    if posting.debit_cents != 0 || posting.credit_cents != 0 {
        return Err(
            ZeroSumDetail::CashOnAGoodsOnlyPosting {
                debit_cents: posting.debit_cents,
                credit_cents: posting.credit_cents,
            },
        );
    }
    Ok(())
}

/// The well-formedness rule for one posting, by kind.
pub fn well_formed(posting: &Posting) -> (r: Result<(), ZeroSumDetail>)
    ensures
        r == (match shape_fault(*posting) {
            Some(d) => Err::<(), ZeroSumDetail>(d),
            None => Ok(()),
        }),
{
    match posting.kind {
        PostingKind::Transfer => {
            two_party(posting)?;
            if posting.units_out != 0 || posting.units_in != 0 {
                return Err(
                    ZeroSumDetail::UnitsOnACashOnlyPosting {
                        units_out: posting.units_out,
                        units_in: posting.units_in,
                    },
                );
            }
            if posting.debit_cents != posting.credit_cents {
                return Err(
                    ZeroSumDetail::CashLegsDiffer {
                        debit_cents: posting.debit_cents,
                        credit_cents: posting.credit_cents,
                    },
                );
            }
            if posting.debit_cents == 0 {
                return Err(
                    ZeroSumDetail::EmptyTransfer {
                        debit_cents: posting.debit_cents,
                        credit_cents: posting.credit_cents,
                    },
                );
            }
        },
        PostingKind::Exchange => {
            two_party(posting)?;
            if posting.debit_cents != posting.credit_cents {
                return Err(
                    ZeroSumDetail::CashLegsDiffer {
                        debit_cents: posting.debit_cents,
                        credit_cents: posting.credit_cents,
                    },
                );
            }
            if posting.units_out != posting.units_in {
                return Err(
                    ZeroSumDetail::UnitLegsDiffer {
                        units_out: posting.units_out,
                        units_in: posting.units_in,
                    },
                );
            }
            if posting.debit_cents == 0 || posting.units_out == 0 {
                return Err(
                    ZeroSumDetail::EmptyExchange { cents: posting.debit_cents, units: posting.units_out },
                );
            }
        },
        PostingKind::Produce => {
            one_party(posting)?;
            no_cash(posting)?;
            if posting.units_out != 0 {
                return Err(
                    ZeroSumDetail::UnitsInTheWrongDirection {
                        kind: posting.kind,
                        units_out: posting.units_out,
                        units_in: posting.units_in,
                    },
                );
            }
        },
        PostingKind::Consume => {
            one_party(posting)?;
            no_cash(posting)?;
            if posting.units_in != 0 {
                return Err(
                    ZeroSumDetail::UnitsInTheWrongDirection {
                        kind: posting.kind,
                        units_out: posting.units_out,
                        units_in: posting.units_in,
                    },
                );
            }
        },
        PostingKind::Endow => {
            one_party(posting)?;
            if posting.debit_cents != 0 || posting.units_out != 0 {
                return Err(
                    ZeroSumDetail::EndowmentHasADebitLeg {
                        debit_cents: posting.debit_cents,
                        units_out: posting.units_out,
                    },
                );
            }
        },
    }
    Ok(())
}

// ---------------------------------------------------------------------------
// The five checks
// ---------------------------------------------------------------------------

/// The money conservation outcome: the balances' total against the opening
/// stock, and the journal's running residual, both clean.
pub open spec fn money_outcome(v: BooksView, tick: u32) -> Result<(), Violation> {
    let expected = v.opening;
    let actual = v.total_money() as i64;
    let delta = clamp_i64(actual - expected) as i64;
    if delta == 0 && v.cash_residual == 0 {
        Ok(())
    } else {
        Err(
            Violation::MoneyConservation {
                tick,
                expected_cents: expected,
                actual_cents: actual,
                delta_cents: delta,
                journal_residual_cents: v.cash_residual,
                posting: boxed(first_cash_break(v.journal)),
            },
        )
    }
}

/// The goods conservation outcome for the one good the books carry: the
/// identity recomputed from the fields, and the running residual from the
/// posting legs, both clean.
pub open spec fn goods_outcome(v: BooksView, tick: u32) -> Result<(), Violation> {
    let produced = v.produced;
    let consumed = v.consumed;
    let stock = v.total_stock() as i64;
    let delta = clamp_i64(clamp_i64(produced - consumed) - stock) as i64;
    if delta == 0 && v.goods_residual == 0 {
        Ok(())
    } else {
        Err(
            Violation::GoodsConservation {
                tick,
                good: only_good(),
                produced,
                consumed,
                stock,
                delta_units: delta,
                journal_residual_units: v.goods_residual,
                posting: boxed(first_goods_break(v.journal)),
            },
        )
    }
}

/// The negative quantity at walk position `i`, cash before stock, if any.
pub open spec fn negative_at(v: BooksView, i: int) -> Option<(NegativeField, i64)> {
    if v.balances()[i] < 0 {
        Some((NegativeField::Cash, v.balances()[i]))
    } else if v.stocks()[i] < 0 {
        Some((NegativeField::Stock, v.stocks()[i]))
    } else {
        None
    }
}

/// The first walk position, from `i` on, holding a negative quantity.
pub open spec fn first_negative_from(v: BooksView, i: int) -> Option<int>
    decreases v.balances().len() - i,
{
    if i < 0 || i >= v.balances().len() {
        None
    } else if negative_at(v, i) is Some {
        Some(i)
    } else {
        first_negative_from(v, i + 1)
    }
}

/// The non-negativity outcome: the first account, in the walk order, holding
/// a negative amount of cash or of the good, with the first posting naming
/// it.
pub open spec fn non_negative_outcome(v: BooksView, tick: u32) -> Result<(), Violation> {
    match first_negative_from(v, 0) {
        None => Ok(()),
        Some(i) => {
            let account = v.account_at(i);
            let (field, value) = negative_at(v, i).unwrap();
            Err(
                Violation::Negative {
                    tick,
                    account,
                    field,
                    value,
                    posting: boxed(first_naming(v.journal, account)),
                },
            )
        },
    }
}

/// The zero-sum outcome: the first malformed posting of the tick.
pub open spec fn zero_sum_outcome(v: BooksView, tick: u32) -> Result<(), Violation> {
    match first_malformed(v.journal) {
        None => Ok(()),
        Some((p, d)) => Err(Violation::ZeroSum { tick, posting: Box::new(p), detail: d }),
    }
}

/// The liveness outcome: at least the minimum of cash transactions.
pub open spec fn liveness_outcome(v: BooksView, tick: u32) -> Result<(), Violation> {
    if v.transactions >= MINIMUM_TRANSACTIONS_PER_TICK {
        Ok(())
    } else {
        Err(
            Violation::Liveness {
                tick,
                counted: v.transactions,
                required: MINIMUM_TRANSACTIONS_PER_TICK,
            },
        )
    }
}

/// The outcome of one check.
pub open spec fn check_outcome(id: CheckId, v: BooksView, tick: u32) -> Result<(), Violation> {
    match id {
        CheckId::MoneyConservation => money_outcome(v, tick),
        CheckId::GoodsConservation => goods_outcome(v, tick),
        CheckId::NonNegative => non_negative_outcome(v, tick),
        CheckId::ZeroSum => zero_sum_outcome(v, tick),
        CheckId::Liveness => liveness_outcome(v, tick),
    }
}

/// Running `ids` in order: the first violation, or `Ok` if none fires.
pub open spec fn run_outcome(ids: Seq<CheckId>, v: BooksView, tick: u32) -> Result<(), Violation>
    decreases ids.len(),
{
    if ids.len() == 0 {
        Ok(())
    } else {
        match check_outcome(ids[0], v, tick) {
            Err(e) => Err(e),
            Ok(()) => run_outcome(ids.drop_first(), v, tick),
        }
    }
}

/// What a check needs of the books to read them without overflow: the
/// running totals of the balances and of the stock all fit.
pub open spec fn checkable(v: BooksView) -> bool {
    &&& v.wf()
    &&& prefix_sums_fit(v.balances())
    &&& prefix_sums_fit(v.stocks())
}

/// Money conservation: the books hold exactly the opening stock, and the
/// journal agrees. Two independent sources: the balances and the postings.
pub fn check_money(books: &Books, tick: u32) -> (r: Result<(), Violation>)
    requires
        books.inv(),
        prefix_sums_fit(books@.balances()),
    ensures
        r == money_outcome(books@, tick),
{
    let expected_cents = books.opening_stock().cents();
    let actual_cents = books.total_money().cents();
    let journal_residual_cents = books.cash_residual_cents();
    let delta_cents = saturating_sub_i64(actual_cents, expected_cents);
    if delta_cents == 0 && journal_residual_cents == 0 {
        return Ok(());
    }
    let posting = boxed_posting(first_breaking_cash_posting(books.journal()));
    Err(
        Violation::MoneyConservation {
            tick,
            expected_cents,
            actual_cents,
            delta_cents,
            journal_residual_cents,
            posting,
        },
    )
}

/// Goods conservation: for every good the books carry, `produced − consumed
/// − Σstock` is zero, and the journal agrees.
pub fn check_goods(books: &Books, tick: u32) -> (r: Result<(), Violation>)
    requires
        books.inv(),
        prefix_sums_fit(books@.stocks()),
    ensures
        r == goods_outcome(books@, tick),
{
    let goods = books.goods();
    let mut k: usize = 0;
    while k < goods.len()
        invariant
            books.inv(),
            prefix_sums_fit(books@.stocks()),
            goods@ == seq![only_good()],
            k <= goods.len(),
            k == 1 ==> goods_outcome(books@, tick) is Ok,
        decreases goods.len() - k,
    {
        let good = goods[k];
        let journal_residual_units = books.goods_residual_units_for(good);
        let produced = books.produced(good);
        let consumed = books.consumed(good);
        let stock = books.total_stock(good);
        let delta_units = saturating_sub_i64(saturating_sub_i64(produced, consumed), stock);
        if !(delta_units == 0 && journal_residual_units == 0) {
            let posting = boxed_posting(first_breaking_goods_posting(books.journal()));
            return Err(
                Violation::GoodsConservation {
                    tick,
                    good,
                    produced,
                    consumed,
                    stock,
                    delta_units,
                    journal_residual_units,
                    posting,
                },
            );
        }
        k = k + 1;
    }
    Ok(())
}

/// Non-negativity: no account holds a negative amount of anything. Accounts
/// are walked households first by ascending index, then firm slots by
/// ascending slot; cash is read before stock.
pub fn check_non_negative(books: &Books, tick: u32) -> (r: Result<(), Violation>)
    requires
        books.inv(),
    ensures
        r == non_negative_outcome(books@, tick),
{
    let accounts = books.accounts();
    let goods = books.goods();
    let ghost v = books@;
    let mut i: usize = 0;
    while i < accounts.len()
        invariant
            books.inv(),
            v == books@,
            goods@ == seq![only_good()],
            accounts@.len() == v.balances().len(),
            forall|j: int| 0 <= j < accounts@.len() ==> accounts@[j] == v.account_at(j),
            i <= accounts.len(),
            first_negative_from(v, 0) == first_negative_from(v, i as int),
        decreases accounts.len() - i,
    {
        let account = accounts[i];
        proof {
            lemma_account_at(v, i as int);
        }
        let cash = books.cash_of(account).unwrap();
        if cash.cents() < 0 {
            assert(negative_at(v, i as int) == Some((NegativeField::Cash, v.balances()[i as int])));
            assert(first_negative_from(v, i as int) == Some(i as int));
            let posting = boxed_posting(first_posting_naming(books.journal(), account));
                return Err(
                    Violation::Negative {
                        tick,
                        account,
                        field: NegativeField::Cash,
                        value: cash.cents(),
                        posting,
                    },
                );
        }
        let mut k: usize = 0;
        while k < goods.len()
            invariant
                books.inv(),
                v == books@,
                goods@ == seq![only_good()],
                k <= goods.len(),
                account == v.account_at(i as int),
                0 <= i < v.balances().len(),
                v.resolves(account),
                v.stock(account) == v.stocks()[i as int],
                v.cash(account) == v.balances()[i as int],
                v.balances()[i as int] >= 0,
                first_negative_from(v, 0) == first_negative_from(v, i as int),
                k == 1 ==> v.stocks()[i as int] >= 0,
            decreases goods.len() - k,
        {
            if let Some(units) = books.stock_of(account, goods[k]) {
                if units < 0 {
                    assert(negative_at(v, i as int) == Some((NegativeField::Stock, v.stocks()[i as int])));
                    assert(first_negative_from(v, i as int) == Some(i as int));
                    let posting = boxed_posting(first_posting_naming(books.journal(), account));
                    return Err(
                        Violation::Negative {
                            tick,
                            account,
                            field: NegativeField::Stock,
                            value: units,
                            posting,
                        },
                    );
                }
            }
            k = k + 1;
        }
        assert(negative_at(v, i as int) is None);
        assert(first_negative_from(v, i as int) == first_negative_from(v, i + 1));
        i = i + 1;
    }
    assert(first_negative_from(v, i as int) is None);
    Ok(())
}

/// Zero-sum: every posting is well formed for its kind. Walks the journal in
/// order and reports the first malformed posting.
pub fn check_zero_sum(books: &Books, tick: u32) -> (r: Result<(), Violation>)
    ensures
        r == zero_sum_outcome(books@, tick),
{
    let journal = books.journal();
    let mut i: usize = 0;
    assert(journal@.subrange(0, journal@.len() as int) =~= journal@);
    while i < journal.len()
        invariant
            journal@ == books@.journal,
            i <= journal.len(),
            first_malformed(journal@) == first_malformed(journal@.subrange(i as int, journal@.len() as int)),
        decreases journal.len() - i,
    {
        let ghost rest = journal@.subrange(i as int, journal@.len() as int);
        assert(rest.drop_first() =~= journal@.subrange(i + 1, journal@.len() as int));
        let posting = journal[i];
        if let Err(detail) = well_formed(&posting) {
            return Err(Violation::ZeroSum { tick, posting: Box::new(posting), detail });
        }
        i = i + 1;
    }
    Ok(())
}

/// Liveness: the tick recorded at least one cash transaction. The only check
/// that can fire on books that are entirely correct.
pub fn check_liveness(books: &Books, tick: u32) -> (r: Result<(), Violation>)
    ensures
        r == liveness_outcome(books@, tick),
{
    let counted = books.transactions_this_tick();
    if counted >= MINIMUM_TRANSACTIONS_PER_TICK {
        return Ok(());
    }
    Err(Violation::Liveness { tick, counted, required: MINIMUM_TRANSACTIONS_PER_TICK })
}

/// Run the check `id` names.
pub fn run_check(id: CheckId, books: &Books, tick: u32) -> (r: Result<(), Violation>)
    requires
        books.inv(),
        checkable(books@),
    ensures
        r == check_outcome(id, books@, tick),
{
    match id {
        CheckId::MoneyConservation => check_money(books, tick),
        CheckId::GoodsConservation => check_goods(books, tick),
        CheckId::NonNegative => check_non_negative(books, tick),
        CheckId::ZeroSum => check_zero_sum(books, tick),
        CheckId::Liveness => check_liveness(books, tick),
    }
}

// ---------------------------------------------------------------------------
// The table and the set
// ---------------------------------------------------------------------------

/// Every check identifier, in the order the checks run.
pub open spec fn all_ids() -> Seq<CheckId> {
    seq![
        CheckId::MoneyConservation,
        CheckId::GoodsConservation,
        CheckId::NonNegative,
        CheckId::ZeroSum,
        CheckId::Liveness,
    ]
}

/// A check's stable name: the snake-case spelling of its identifier.
pub open spec fn check_name(id: CheckId) -> Seq<char> {
    match id {
        CheckId::MoneyConservation => "money_conservation"@,
        CheckId::GoodsConservation => "goods_conservation"@,
        CheckId::NonNegative => "non_negative"@,
        CheckId::ZeroSum => "zero_sum"@,
        CheckId::Liveness => "liveness"@,
    }
}

impl CheckId {
    /// Every check identifier, in the order the checks run.
    pub fn all() -> (ids: Vec<CheckId>)
        ensures
            ids@ == all_ids(),
    {
        let mut ids: Vec<CheckId> = Vec::new();
        ids.push(CheckId::MoneyConservation);
        ids.push(CheckId::GoodsConservation);
        ids.push(CheckId::NonNegative);
        ids.push(CheckId::ZeroSum);
        ids.push(CheckId::Liveness);
        assert(ids@ =~= all_ids());
        ids
    }

    /// The check's stable name.
    pub fn name(self) -> (s: &'static str)
        ensures
            s@ == check_name(self),
    {
        match self {
            CheckId::MoneyConservation => "money_conservation",
            CheckId::GoodsConservation => "goods_conservation",
            CheckId::NonNegative => "non_negative",
            CheckId::ZeroSum => "zero_sum",
            CheckId::Liveness => "liveness",
        }
    }
}

/// The full, ordered table: every check with its stable name, in the order
/// it runs.
pub fn all_checks() -> (table: Vec<(CheckId, &'static str)>)
    ensures
        table@.len() == all_ids().len(),
        forall|i: int| 0 <= i < table@.len() ==> (#[trigger] table@[i]).0 == all_ids()[i]
            && table@[i].1@ == check_name(all_ids()[i]),
{
    let ids = CheckId::all();
    let mut table: Vec<(CheckId, &'static str)> = Vec::new();
    let mut i: usize = 0;
    while i < ids.len()
        invariant
            ids@ == all_ids(),
            i <= ids.len(),
            table@.len() == i,
            forall|j: int| 0 <= j < i ==> (#[trigger] table@[j]).0 == all_ids()[j]
                && table@[j].1@ == check_name(all_ids()[j]),
        decreases ids.len() - i,
    {
        let id = ids[i];
        table.push((id, id.name()));
        i = i + 1;
    }
    table
}

/// The identifiers the liveness switch leaves active, in run order.
pub open spec fn active_for(liveness_enabled: bool) -> Seq<CheckId> {
    if liveness_enabled {
        all_ids()
    } else {
        all_ids().take(4)
    }
}

/// The checks active for this run, in order.
pub struct CheckSet {
    active: Vec<CheckId>,
}

impl View for CheckSet {
    type V = Seq<CheckId>;

    closed spec fn view(&self) -> Seq<CheckId> {
        self.active@
    }
}

impl CheckSet {
    /// Build the active set from the run's parameters: every check in order,
    /// liveness only where the switch enables it. The one place the switch is
    /// read.
    pub fn from_params(params: &Params) -> (set: CheckSet)
        ensures
            set@ == active_for(params.invariants.liveness_enabled),
    {
        let liveness_enabled = params.invariants.liveness_enabled;
        let ids = CheckId::all();
        let mut active: Vec<CheckId> = Vec::new();
        let mut i: usize = 0;
        while i < ids.len()
            invariant
                ids@ == all_ids(),
                i <= ids.len(),
                active@ == active_for(liveness_enabled).take(
                    if !liveness_enabled && i == 5 { 4 } else { i as int },
                ),
            decreases ids.len() - i,
        {
            if liveness_enabled || ids[i] != CheckId::Liveness {
                active.push(ids[i]);
            }
            i = i + 1;
        }
        assert(active@ =~= active_for(liveness_enabled));
        CheckSet { active }
    }

    /// Run the active checks in order and return the first violation; the
    /// rest are not run.
    pub fn run(&self, books: &Books, tick: u32) -> (r: Result<(), Violation>)
        requires
            books.inv(),
            checkable(books@),
        ensures
            r == run_outcome(self@, books@, tick),
    {
        let mut i: usize = 0;
        assert(self.active@.subrange(0, self.active@.len() as int) =~= self.active@);
        while i < self.active.len()
            invariant
                books.inv(),
                checkable(books@),
                i <= self.active@.len(),
                run_outcome(self.active@, books@, tick) == run_outcome(
                    self.active@.subrange(i as int, self.active@.len() as int),
                    books@,
                    tick,
                ),
            decreases self.active.len() - i,
        {
            let ghost rest = self.active@.subrange(i as int, self.active@.len() as int);
            assert(rest.drop_first() =~= self.active@.subrange(i + 1, self.active@.len() as int));
            run_check(self.active[i], books, tick)?;
            i = i + 1;
        }
        Ok(())
    }

    /// The active check identifiers, in the order they run.
    pub fn active_ids(&self) -> (ids: Vec<CheckId>)
        ensures
            ids@ == self@,
    {
        let mut ids: Vec<CheckId> = Vec::new();
        let mut i: usize = 0;
        while i < self.active.len()
            invariant
                i <= self.active@.len(),
                ids@ == self.active@.take(i as int),
            decreases self.active.len() - i,
        {
            ids.push(self.active[i]);
            i = i + 1;
            assert(ids@ =~= self.active@.take(i as int));
        }
        assert(self.active@.take(self.active@.len() as int) =~= self.active@);
        ids
    }
}

// ---------------------------------------------------------------------------
// Healthy books
// ---------------------------------------------------------------------------

/// No balance is negative.
pub open spec fn cash_non_negative(v: BooksView) -> bool {
    forall|i: int| 0 <= i < v.balances().len() ==> #[trigger] v.balances()[i] >= 0
}

/// No stock holding is negative.
pub open spec fn stock_non_negative(v: BooksView) -> bool {
    forall|i: int| 0 <= i < v.stocks().len() ==> #[trigger] v.stocks()[i] >= 0
}

/// Every posting of the tick is well formed for its kind.
pub open spec fn journal_well_formed(s: Seq<Posting>) -> bool {
    forall|i: int| 0 <= i < s.len() ==> #[trigger] shape_fault(s[i]) is None
}

/// Books a correct run keeps: well formed, holding exactly the opening stock
/// with a clean cash residual, satisfying the goods identity with a clean
/// goods residual, with no negative quantity, a non-negative consumed total,
/// and only well-formed postings in the journal.
pub open spec fn healthy(v: BooksView) -> bool {
    &&& v.wf()
    &&& v.total_money() == v.opening
    &&& v.cash_residual == 0
    &&& v.goods_identity() == 0
    &&& v.goods_residual == 0
    &&& v.consumed >= 0
    &&& cash_non_negative(v)
    &&& stock_non_negative(v)
    &&& journal_well_formed(v.journal)
}

proof fn lemma_first_malformed_none(s: Seq<Posting>)
    requires
        journal_well_formed(s),
    ensures
        first_malformed(s) is None,
    decreases s.len(),
{
    if s.len() > 0 {
        assert(shape_fault(s[0]) is None);
        assert forall|i: int| 0 <= i < s.drop_first().len() implies #[trigger] shape_fault(
            s.drop_first()[i],
        ) is None by {
            assert(s.drop_first()[i] == s[i + 1]);
        }
        lemma_first_malformed_none(s.drop_first());
    }
}

proof fn lemma_first_negative_none(v: BooksView, i: int)
    requires
        v.wf(),
        cash_non_negative(v),
        stock_non_negative(v),
        0 <= i,
    ensures
        first_negative_from(v, i) is None,
    decreases v.balances().len() - i,
{
    if i < v.balances().len() {
        lemma_account_at(v, i);
        assert(v.balances()[i] >= 0);
        assert(v.stocks()[i] >= 0);
        lemma_first_negative_none(v, i + 1);
    }
}

/// Healthy books can be checked without overflow, and every check but
/// liveness passes on them: the active set's outcome is liveness's alone.
pub proof fn law_healthy_books_pass_every_check_but_liveness(v: BooksView, tick: u32)
    requires
        healthy(v),
    ensures
        checkable(v),
        money_outcome(v, tick) is Ok,
        goods_outcome(v, tick) is Ok,
        non_negative_outcome(v, tick) is Ok,
        zero_sum_outcome(v, tick) is Ok,
        run_outcome(active_for(false), v, tick) is Ok,
        run_outcome(active_for(true), v, tick) == liveness_outcome(v, tick),
{
    lemma_nonnegative_prefix_fit(v.balances());
    lemma_nonnegative_prefix_fit(v.stocks());
    lemma_first_malformed_none(v.journal);
    lemma_first_negative_none(v, 0);
    reveal_with_fuel(run_outcome, 6);
    let ids = active_for(true);
    assert(ids.drop_first() =~= seq![CheckId::GoodsConservation, CheckId::NonNegative, CheckId::ZeroSum, CheckId::Liveness]);
    assert(ids.drop_first().drop_first() =~= seq![CheckId::NonNegative, CheckId::ZeroSum, CheckId::Liveness]);
    assert(ids.drop_first().drop_first().drop_first() =~= seq![CheckId::ZeroSum, CheckId::Liveness]);
    assert(ids.drop_first().drop_first().drop_first().drop_first() =~= seq![CheckId::Liveness]);
    assert(seq![CheckId::Liveness].drop_first() =~= Seq::<CheckId>::empty());
    let off = active_for(false);
    assert(off.drop_first() =~= seq![CheckId::GoodsConservation, CheckId::NonNegative, CheckId::ZeroSum]);
    assert(off.drop_first().drop_first() =~= seq![CheckId::NonNegative, CheckId::ZeroSum]);
    assert(off.drop_first().drop_first().drop_first() =~= seq![CheckId::ZeroSum]);
    assert(off.drop_first().drop_first().drop_first().drop_first() =~= Seq::<CheckId>::empty());
}

/// Writing a non-negative balance keeps every balance non-negative.
proof fn lemma_cash_stays_non_negative(v: BooksView, a: Account, x: i64)
    requires
        v.wf(),
        v.resolves(a),
        cash_non_negative(v),
        x >= 0,
    ensures
        cash_non_negative(v.with_cash(a, x)),
{
    let w = v.with_cash(a, x);
    assert forall|i: int| 0 <= i < w.balances().len() implies #[trigger] w.balances()[i] >= 0 by {
        assert(v.balances()[i] >= 0);
        if i < v.household_cash.len() {
            assert(w.balances()[i] == w.household_cash[i]);
            assert(v.balances()[i] == v.household_cash[i]);
        } else {
            assert(w.balances()[i] == w.firm_cash[i - v.household_cash.len()]);
            assert(v.balances()[i] == v.firm_cash[i - v.household_cash.len()]);
        }
    }
}

/// Writing a non-negative stock holding keeps every holding non-negative.
proof fn lemma_stock_stays_non_negative(v: BooksView, a: Account, x: i64)
    requires
        v.wf(),
        v.resolves(a),
        stock_non_negative(v),
        x >= 0,
    ensures
        stock_non_negative(v.with_stock(a, x)),
{
    let w = v.with_stock(a, x);
    assert forall|i: int| 0 <= i < w.stocks().len() implies #[trigger] w.stocks()[i] >= 0 by {
        assert(v.stocks()[i] >= 0);
        if i < v.household_stock.len() {
            assert(w.stocks()[i] == w.household_stock[i]);
            assert(v.stocks()[i] == v.household_stock[i]);
        } else {
            assert(w.stocks()[i] == w.firm_stock[i - v.household_stock.len()]);
            assert(v.stocks()[i] == v.firm_stock[i - v.household_stock.len()]);
        }
    }
}

/// Recording a posting whose shape is well formed keeps the journal well
/// formed; the recorder's stamp touches no field the shape rule reads.
proof fn lemma_record_keeps_journal(v: BooksView, d: Posting)
    requires
        journal_well_formed(v.journal),
        shape_fault(d) is None,
    ensures
        journal_well_formed(v.record(d).journal),
        v.record(d).stocks() == v.stocks(),
        v.record(d).balances() == v.balances(),
{
    let j = v.record(d).journal;
    assert forall|i: int| 0 <= i < j.len() implies #[trigger] shape_fault(j[i]) is None by {
        if i < v.journal.len() {
            assert(j[i] == v.journal[i]);
        }
    }
}

/// A completed transfer keeps healthy books healthy.
pub proof fn law_transfer_keeps_healthy(v: BooksView, from: Account, to: Account, amount: i64)
    requires
        healthy(v),
        v.transfer_refusal(from, to, amount) is None,
    ensures
        healthy(v.after_transfer(from, to, amount)),
{
    law_transfer_conserves(v, from, to, amount);
    let a = v.with_cash(from, (v.cash(from) - amount) as i64);
    lemma_with_cash(v, from, (v.cash(from) - amount) as i64);
    lemma_cash_stays_non_negative(v, from, (v.cash(from) - amount) as i64);
    lemma_account_at(v, 0);
    assert(v.cash(to) >= 0) by {
        let i = match to {
            Account::Household(h) => h.0 as int,
            Account::Firm(f) => v.household_cash.len() + f.slot.0 as int,
        };
        assert(v.balances()[i] >= 0);
    }
    let b = a.with_cash(to, (v.cash(to) + amount) as i64);
    lemma_with_cash(a, to, (v.cash(to) + amount) as i64);
    lemma_cash_stays_non_negative(a, to, (v.cash(to) + amount) as i64);
    let d = draft(PostingKind::Transfer, from, to, amount, amount, only_good(), 0, 0);
    lemma_record_keeps_journal(b, d);
}

/// A completed production keeps healthy books healthy.
pub proof fn law_produce_keeps_healthy(v: BooksView, who: Account, good: GoodId, units: i64)
    requires
        healthy(v),
        v.produce_refusal(who, good, units) is None,
        v.stock(who) + units <= i64::MAX,
        v.produced + units <= i64::MAX,
    ensures
        healthy(v.after_produce(who, good, units)),
{
    law_produce_conserves(v, who, good, units);
    assert(v.stock(who) >= 0) by {
        let i = match who {
            Account::Household(h) => h.0 as int,
            Account::Firm(f) => v.household_stock.len() + f.slot.0 as int,
        };
        assert(v.stocks()[i] >= 0);
    }
    let x = (v.stock(who) + units) as i64;
    lemma_with_stock(v, who, x);
    lemma_stock_stays_non_negative(v, who, x);
    let a = BooksView { produced: (v.produced + units) as i64, ..v.with_stock(who, x) };
    assert(a.stocks() == v.with_stock(who, x).stocks());
    assert(a.balances() == v.with_stock(who, x).balances());
    let d = draft(PostingKind::Produce, who, who, 0, 0, good, 0, units);
    lemma_record_keeps_journal(a, d);
}

/// A completed consumption keeps healthy books healthy.
pub proof fn law_consume_keeps_healthy(v: BooksView, who: Account, good: GoodId, units: i64)
    requires
        healthy(v),
        v.consume_refusal(who, good, units) is None,
        v.consumed + units <= i64::MAX,
    ensures
        healthy(v.after_consume(who, good, units)),
{
    law_consume_conserves(v, who, good, units);
    let x = (v.stock(who) - units) as i64;
    lemma_with_stock(v, who, x);
    lemma_stock_stays_non_negative(v, who, x);
    let a = BooksView { consumed: (v.consumed + units) as i64, ..v.with_stock(who, x) };
    assert(a.stocks() == v.with_stock(who, x).stocks());
    assert(a.balances() == v.with_stock(who, x).balances());
    let d = draft(PostingKind::Consume, who, who, 0, 0, good, units, 0);
    lemma_record_keeps_journal(a, d);
}

/// A completed exchange keeps healthy books healthy.
pub proof fn law_exchange_keeps_healthy(
    v: BooksView,
    buyer: Account,
    seller: Account,
    good: GoodId,
    units: i64,
    amount: i64,
)
    requires
        healthy(v),
        v.exchange_refusal(buyer, seller, good, units, amount) is None,
        v.stock(buyer) + units <= i64::MAX,
    ensures
        healthy(v.after_exchange(buyer, seller, good, units, amount)),
{
    law_exchange_conserves(v, buyer, seller, good, units, amount);
    assert(v.cash(seller) >= 0 && v.stock(buyer) >= 0) by {
        let i = match seller {
            Account::Household(h) => h.0 as int,
            Account::Firm(f) => v.household_cash.len() + f.slot.0 as int,
        };
        assert(v.balances()[i] >= 0);
        let k = match buyer {
            Account::Household(h) => h.0 as int,
            Account::Firm(f) => v.household_stock.len() + f.slot.0 as int,
        };
        assert(v.stocks()[k] >= 0);
    }
    let a = v.with_cash(buyer, (v.cash(buyer) - amount) as i64);
    lemma_with_cash(v, buyer, (v.cash(buyer) - amount) as i64);
    lemma_cash_stays_non_negative(v, buyer, (v.cash(buyer) - amount) as i64);
    let b = a.with_cash(seller, (v.cash(seller) + amount) as i64);
    lemma_with_cash(a, seller, (v.cash(seller) + amount) as i64);
    lemma_cash_stays_non_negative(a, seller, (v.cash(seller) + amount) as i64);
    let c = b.with_stock(seller, (v.stock(seller) - units) as i64);
    lemma_with_stock(b, seller, (v.stock(seller) - units) as i64);
    lemma_stock_stays_non_negative(b, seller, (v.stock(seller) - units) as i64);
    let e = c.with_stock(buyer, (v.stock(buyer) + units) as i64);
    lemma_with_stock(c, buyer, (v.stock(buyer) + units) as i64);
    lemma_stock_stays_non_negative(c, buyer, (v.stock(buyer) + units) as i64);
    let d = draft(PostingKind::Exchange, buyer, seller, amount, amount, good, units, units);
    lemma_record_keeps_journal(e, d);
}

/// Closing a tick keeps healthy books healthy.
pub proof fn law_end_of_tick_keeps_healthy(v: BooksView)
    requires
        healthy(v),
    ensures
        healthy(v.after_tick()),
{
    law_end_of_tick_keeps_the_books(v);
    assert(v.after_tick().balances() == v.balances());
    assert(v.after_tick().stocks() == v.stocks());
}

/// Books built from parameters with non-negative liquidity are healthy.
pub proof fn law_construction_is_healthy(params: Params)
    requires
        params.sim.firms <= u16::MAX,
        params.household.initial_liquidity_cents >= 0,
        params.firm.initial_liquidity_cents >= 0,
        construction_refusal(params) is None,
    ensures
        healthy(opening_view(params)),
{
    let h = params.sim.households as nat;
    let hl = params.household.initial_liquidity_cents as int;
    let opening = params.money.total_money_cents as int;
    crate::books::lemma_saturating_repeat_clamps(-opening, hl, h);
    crate::books::lemma_saturating_repeat_in_range(-opening, hl, h);
    let inner = crate::books::saturating_repeat(-opening, hl, h);
    crate::books::lemma_saturating_repeat_clamps(
        inner,
        params.firm.initial_liquidity_cents as int,
        params.sim.firms as nat,
    );
    assert(h * hl >= 0 && params.sim.firms * params.firm.initial_liquidity_cents >= 0) by (nonlinear_arith)
        requires
            hl >= 0,
            params.firm.initial_liquidity_cents >= 0,
    ;
    law_construction_conserves(params);
    let v = opening_view(params);
    assert forall|i: int| 0 <= i < v.balances().len() implies #[trigger] v.balances()[i] >= 0 by {
        if i < v.household_cash.len() {
            assert(v.balances()[i] == v.household_cash[i]);
        } else {
            assert(v.balances()[i] == v.firm_cash[i - v.household_cash.len()]);
        }
    }
    assert forall|i: int| 0 <= i < v.stocks().len() implies #[trigger] v.stocks()[i] >= 0 by {
        if i < v.household_stock.len() {
            assert(v.stocks()[i] == v.household_stock[i]);
        } else {
            assert(v.stocks()[i] == v.firm_stock[i - v.household_stock.len()]);
        }
    }
}

/// The number of transfer and exchange postings in `j`.
pub open spec fn transaction_postings(j: Seq<Posting>) -> nat
    decreases j.len(),
{
    if j.len() == 0 {
        0
    } else {
        transaction_postings(j.drop_last()) + (if BooksView::is_transaction(j.last().kind) {
            1nat
        } else {
            0nat
        })
    }
}

/// A journal as the public operations leave it: every posting well formed,
/// every transfer and exchange moving a positive amount on both legs, and the
/// transaction count equal to the number of transfer and exchange postings
/// (held at the 32-bit maximum).
pub open spec fn honest(v: BooksView) -> bool {
    &&& journal_well_formed(v.journal)
    &&& forall|i: int|
        0 <= i < v.journal.len() && BooksView::is_transaction(#[trigger] v.journal[i].kind) ==> v.journal[i].debit_cents
            > 0 && v.journal[i].credit_cents > 0
    &&& v.transactions == clamp_u32(transaction_postings(v.journal) as int)
}

/// Whether a journal is honest reads only the journal and the count.
pub proof fn law_honest_reads_only_the_journal(v: BooksView, w: BooksView)
    requires
        v.journal == w.journal,
        v.transactions == w.transactions,
    ensures
        honest(v) == honest(w),
{
}

/// Recording a well-formed posting that, if it is a transaction, moves a
/// positive amount keeps the journal honest.
proof fn lemma_record_keeps_honest(v: BooksView, d: Posting)
    requires
        honest(v),
        shape_fault(d) is None,
        BooksView::is_transaction(d.kind) ==> d.debit_cents > 0 && d.credit_cents > 0,
    ensures
        honest(v.record(d)),
{
    lemma_record_keeps_journal(v, d);
    let j = v.record(d).journal;
    assert(j.drop_last() =~= v.journal);
    assert forall|i: int|
        0 <= i < j.len() && BooksView::is_transaction(#[trigger] j[i].kind) implies j[i].debit_cents > 0
        && j[i].credit_cents > 0 by {
        if i < v.journal.len() {
            assert(j[i] == v.journal[i]);
        }
    }
}

/// Fresh books have an honest, empty journal.
pub proof fn law_construction_is_honest(params: Params)
    ensures
        honest(opening_view(params)),
{
}

/// A completed transfer keeps the journal honest.
pub proof fn law_transfer_keeps_honest(v: BooksView, from: Account, to: Account, amount: i64)
    requires
        v.wf(),
        honest(v),
        v.transfer_refusal(from, to, amount) is None,
    ensures
        honest(v.after_transfer(from, to, amount)),
{
    let b = v.with_cash(from, (v.cash(from) - amount) as i64).with_cash(to, (v.cash(to) + amount) as i64);
    let d = draft(PostingKind::Transfer, from, to, amount, amount, only_good(), 0, 0);
    law_honest_reads_only_the_journal(v, b);
    lemma_record_keeps_honest(b, d);
}

/// A completed production keeps the journal honest.
pub proof fn law_produce_keeps_honest(v: BooksView, who: Account, good: GoodId, units: i64)
    requires
        v.wf(),
        honest(v),
        v.produce_refusal(who, good, units) is None,
    ensures
        honest(v.after_produce(who, good, units)),
{
    let a = BooksView { produced: (v.produced + units) as i64, ..v.with_stock(who, (v.stock(who) + units) as i64) };
    let d = draft(PostingKind::Produce, who, who, 0, 0, good, 0, units);
    law_honest_reads_only_the_journal(v, a);
    lemma_record_keeps_honest(a, d);
}

/// A completed consumption keeps the journal honest.
pub proof fn law_consume_keeps_honest(v: BooksView, who: Account, good: GoodId, units: i64)
    requires
        v.wf(),
        honest(v),
        v.consume_refusal(who, good, units) is None,
    ensures
        honest(v.after_consume(who, good, units)),
{
    let a = BooksView { consumed: (v.consumed + units) as i64, ..v.with_stock(who, (v.stock(who) - units) as i64) };
    let d = draft(PostingKind::Consume, who, who, 0, 0, good, units, 0);
    law_honest_reads_only_the_journal(v, a);
    lemma_record_keeps_honest(a, d);
}

/// A completed exchange keeps the journal honest.
pub proof fn law_exchange_keeps_honest(
    v: BooksView,
    buyer: Account,
    seller: Account,
    good: GoodId,
    units: i64,
    amount: i64,
)
    requires
        v.wf(),
        honest(v),
        v.exchange_refusal(buyer, seller, good, units, amount) is None,
    ensures
        honest(v.after_exchange(buyer, seller, good, units, amount)),
{
    let e = v.with_cash(buyer, (v.cash(buyer) - amount) as i64).with_cash(
        seller,
        (v.cash(seller) + amount) as i64,
    ).with_stock(seller, (v.stock(seller) - units) as i64).with_stock(
        buyer,
        (v.stock(buyer) + units) as i64,
    );
    let d = draft(PostingKind::Exchange, buyer, seller, amount, amount, good, units, units);
    law_honest_reads_only_the_journal(v, e);
    lemma_record_keeps_honest(e, d);
}

/// Closing a tick leaves an honest, empty journal.
pub proof fn law_end_of_tick_keeps_honest(v: BooksView)
    ensures
        honest(v.after_tick()),
{
}

/// Books with an honest journal pass the zero-sum check, whatever their
/// balances.
pub proof fn law_honest_books_pass_the_zero_sum_check(v: BooksView, tick: u32)
    requires
        honest(v),
    ensures
        zero_sum_outcome(v, tick) is Ok,
{
    lemma_first_malformed_none(v.journal);
}

/// One call of a public ledger operation, with its arguments.
pub enum LedgerOp {
    Transfer { from: Account, to: Account, amount: i64 },
    Produce { who: Account, good: GoodId, units: i64 },
    Consume { who: Account, good: GoodId, units: i64 },
    Exchange { buyer: Account, seller: Account, good: GoodId, units: i64, amount: i64 },
    SetHeadcount { slot: FirmSlot, count: u32 },
    EndOfTick,
}

/// Whether `op` may be called on books `v`: the operation would not overflow
/// a total it commits, the inputs on which it panics left out.
pub open spec fn admissible(v: BooksView, op: LedgerOp) -> bool {
    match op {
        LedgerOp::Produce { who, good, units } => v.produce_refusal(who, good, units) is None ==> v.stock(who)
            + units <= i64::MAX && v.produced + units <= i64::MAX,
        LedgerOp::Consume { who, good, units } => v.consume_refusal(who, good, units) is None ==> v.consumed
            + units <= i64::MAX,
        LedgerOp::Exchange { buyer, seller, good, units, amount } => v.exchange_refusal(
            buyer,
            seller,
            good,
            units,
            amount,
        ) is None ==> v.stock(buyer) + units <= i64::MAX,
        _ => true,
    }
}

/// The books after `op` on `v`, as the operation's contract states them: a
/// refused operation leaves them as they were.
pub open spec fn apply(v: BooksView, op: LedgerOp) -> BooksView {
    match op {
        LedgerOp::Transfer { from, to, amount } => if v.transfer_refusal(from, to, amount) is None {
            v.after_transfer(from, to, amount)
        } else {
            v
        },
        LedgerOp::Produce { who, good, units } => if v.produce_refusal(who, good, units) is None {
            v.after_produce(who, good, units)
        } else {
            v
        },
        LedgerOp::Consume { who, good, units } => if v.consume_refusal(who, good, units) is None {
            v.after_consume(who, good, units)
        } else {
            v
        },
        LedgerOp::Exchange { buyer, seller, good, units, amount } => if v.exchange_refusal(
            buyer,
            seller,
            good,
            units,
            amount,
        ) is None {
            v.after_exchange(buyer, seller, good, units, amount)
        } else {
            v
        },
        LedgerOp::SetHeadcount { slot, count } => if (slot.0 as int) < v.headcount.len() {
            BooksView { headcount: v.headcount.update(slot.0 as int, count), ..v }
        } else {
            v
        },
        LedgerOp::EndOfTick => v.after_tick(),
    }
}

/// The books after every operation of `ops`, in order, starting from `v`.
pub open spec fn apply_all(v: BooksView, ops: Seq<LedgerOp>) -> BooksView
    decreases ops.len(),
{
    if ops.len() == 0 {
        v
    } else {
        apply(apply_all(v, ops.drop_last()), ops.last())
    }
}

/// Whether every operation of `ops` may be called on the books the ones
/// before it leave, starting from `v`.
pub open spec fn all_admissible(v: BooksView, ops: Seq<LedgerOp>) -> bool
    decreases ops.len(),
{
    if ops.len() == 0 {
        true
    } else {
        all_admissible(v, ops.drop_last()) && admissible(apply_all(v, ops.drop_last()), ops.last())
    }
}

/// One admissible operation keeps well-formed, honest books so.
proof fn lemma_apply_keeps_honest(v: BooksView, op: LedgerOp)
    requires
        v.wf(),
        honest(v),
        admissible(v, op),
    ensures
        apply(v, op).wf(),
        honest(apply(v, op)),
{
    match op {
        LedgerOp::Transfer { from, to, amount } => {
            if v.transfer_refusal(from, to, amount) is None {
                law_transfer_conserves(v, from, to, amount);
                law_transfer_keeps_honest(v, from, to, amount);
            }
        },
        LedgerOp::Produce { who, good, units } => {
            if v.produce_refusal(who, good, units) is None {
                law_produce_conserves(v, who, good, units);
                law_produce_keeps_honest(v, who, good, units);
            }
        },
        LedgerOp::Consume { who, good, units } => {
            if v.consume_refusal(who, good, units) is None {
                law_consume_conserves(v, who, good, units);
                law_consume_keeps_honest(v, who, good, units);
            }
        },
        LedgerOp::Exchange { buyer, seller, good, units, amount } => {
            if v.exchange_refusal(buyer, seller, good, units, amount) is None {
                law_exchange_conserves(v, buyer, seller, good, units, amount);
                law_exchange_keeps_honest(v, buyer, seller, good, units, amount);
            }
        },
        LedgerOp::SetHeadcount { slot, count } => {
            if (slot.0 as int) < v.headcount.len() {
                law_honest_reads_only_the_journal(v, apply(v, op));
            }
        },
        LedgerOp::EndOfTick => {
            law_end_of_tick_keeps_the_books(v);
            law_end_of_tick_keeps_honest(v);
        },
    }
}

/// Every run of public ledger operations, each refused or committed, from
/// freshly built books leaves an honest journal: every posting is well
/// formed, every transfer and exchange moved a positive amount on both legs,
/// the transaction count is the number of transfer and exchange postings,
/// and the zero-sum check passes at every tick.
pub proof fn law_every_run_of_operations_keeps_the_journal_honest(params: Params, ops: Seq<LedgerOp>)
    requires
        params.sim.firms <= u16::MAX,
        construction_refusal(params) is None,
        all_admissible(opening_view(params), ops),
    ensures
        apply_all(opening_view(params), ops).wf(),
        honest(apply_all(opening_view(params), ops)),
        forall|tick: u32| #[trigger] zero_sum_outcome(apply_all(opening_view(params), ops), tick) is Ok,
    decreases ops.len(),
{
    if ops.len() == 0 {
        law_construction_is_honest(params);
    } else {
        law_every_run_of_operations_keeps_the_journal_honest(params, ops.drop_last());
        lemma_apply_keeps_honest(apply_all(opening_view(params), ops.drop_last()), ops.last());
    }
    assert forall|tick: u32| #[trigger] zero_sum_outcome(apply_all(opening_view(params), ops), tick) is Ok by {
        law_honest_books_pass_the_zero_sum_check(apply_all(opening_view(params), ops), tick);
    }
}

/// Where the scan from `i` finds nothing, nothing from `i` on is negative;
/// where it finds a position, that position is in range and negative.
proof fn lemma_first_negative_scan(v: BooksView, i: int)
    requires
        0 <= i,
    ensures
        first_negative_from(v, i) is None ==> forall|j: int|
            i <= j < v.balances().len() ==> #[trigger] negative_at(v, j) is None,
        first_negative_from(v, i) matches Some(k) ==> i <= k < v.balances().len() && negative_at(v, k) is Some,
    decreases v.balances().len() - i,
{
    if i < v.balances().len() {
        lemma_first_negative_scan(v, i + 1);
    }
}

/// Before the first negative position the scan finds, nothing is negative.
proof fn lemma_first_negative_prefix(v: BooksView, i: int, k: int)
    requires
        0 <= i,
        first_negative_from(v, i) == Some(k),
    ensures
        forall|j: int| i <= j < k ==> #[trigger] negative_at(v, j) is None,
    decreases v.balances().len() - i,
{
    if i < v.balances().len() && negative_at(v, i) is None {
        lemma_first_negative_prefix(v, i + 1, k);
    }
}

/// The non-negativity check passes exactly when no account, household or
/// firm slot, holds negative cash or a negative stock. When it fails it names
/// the first account in the walk that holds a negative amount, with the
/// field and the amount it holds, at the tick it was asked about.
pub proof fn law_non_negativity_fails_exactly_on_a_negative_holding(v: BooksView, tick: u32)
    requires
        v.wf(),
    ensures
        (non_negative_outcome(v, tick) is Ok) <==> (forall|i: int|
            0 <= i < v.balances().len() ==> #[trigger] v.balances()[i] >= 0 && v.stocks()[i] >= 0),
        non_negative_outcome(v, tick) matches Err(e) ==> (e matches Violation::Negative {
            tick: t,
            account,
            field,
            value,
            ..
        } && t == tick && exists|i: int|
            0 <= i < v.balances().len() && account == v.account_at(i) && value < 0 && (field
                == NegativeField::Cash ==> value == #[trigger] v.balances()[i]) && (field
                == NegativeField::Stock ==> value == v.stocks()[i]) && forall|j: int|
                0 <= j < i ==> #[trigger] v.balances()[j] >= 0 && v.stocks()[j] >= 0),
{
    lemma_first_negative_scan(v, 0);
    if forall|i: int| 0 <= i < v.balances().len() ==> #[trigger] v.balances()[i] >= 0 && v.stocks()[i] >= 0 {
        assert(cash_non_negative(v));
        assert forall|i: int| 0 <= i < v.stocks().len() implies #[trigger] v.stocks()[i] >= 0 by {
            assert(v.balances()[i] >= 0 && v.stocks()[i] >= 0);
        }
        lemma_first_negative_none(v, 0);
    }
    if first_negative_from(v, 0) is None {
        assert forall|i: int| 0 <= i < v.balances().len() implies #[trigger] v.balances()[i] >= 0
            && v.stocks()[i] >= 0 by {
            assert(negative_at(v, i) is None);
        }
    } else {
        let k = first_negative_from(v, 0)->Some_0;
        lemma_first_negative_prefix(v, 0, k);
        assert(negative_at(v, k) is Some);
        assert(v.balances()[k] < 0 || v.stocks()[k] < 0);
        assert forall|j: int| 0 <= j < k implies #[trigger] v.balances()[j] >= 0 && v.stocks()[j] >= 0 by {
            assert(negative_at(v, j) is None);
        }
        assert(v.balances()[k] == v.balances()[k]);
    }
}

} // verus!
