//! The books: the one place a cent or a unit exists, and the one place one
//! moves.
//!
//! Every cent and every goods unit is held by a [`Books`] value behind
//! private fields. The only ways to move them are [`Books::transfer`],
//! [`Books::produce`], [`Books::consume`] and [`Books::exchange`], each of
//! which is compute-then-commit: every step that can fail runs before the
//! first write, so a refusal leaves the books exactly as it found them.
//!
//! The goods identity is `produced − consumed − Σ stock == 0`, and it is a
//! real check because its two sides come from two separately maintained
//! sources: the produced and consumed totals advance from the *arguments* of
//! the operations, while the running goods residual advances from the *legs*
//! of the postings they record. The same holds for cash: the balances on one
//! side, the journal's running cash residual on the other.
//!
//! Balances, stock and headcount are keyed by firm **slot**; postings by the
//! full generational identity.

use vstd::prelude::*;
use crate::config::Params;
use crate::ids::{Account, FirmId, FirmSlot, GoodId, HouseholdId, account_text, good_text};
use crate::money::{Money, MoneyOverflow, in_money_range};
use crate::numeric::{
    lemma_sum_concat,
    lemma_sum_update,
    clamp_i64,
    clamp_u32,
    prefix_sums_fit,
    running_totals_fit,
    saturating_add_i64,
    saturating_increment_u32,
    saturating_sub_i64,
    sum_i64,
    sum_ints,
};
use crate::text::{decimal, empty_text, push_signed, push_text};

verus! {

broadcast use crate::money::Money::lemma_from_cents, crate::money::Money::lemma_cents_in_range;

/// The good every posting in v1 names.
pub open spec fn only_good() -> GoodId {
    GoodId(0)
}

/// What a posting records.
#[derive(Debug, Clone, Copy, PartialEq, Eq, Structural)]
pub enum PostingKind {
    /// Opening endowment, of cash or of units. Its counterparty is outside the
    /// books, so its debit leg carries no amount. Not a transaction.
    Endow,
    /// Cash moved from one account to another.
    Transfer,
    /// Cash one way and units the other, as a single posting.
    Exchange,
    /// Units entered the system at an account. Not a transaction.
    Produce,
    /// Units left the system from an account. Not a transaction.
    Consume,
}

/// One line of the journal: what moved, between whom, and what the running
/// residuals were immediately after it applied.
///
/// The cash leg is two amounts and the units leg is two amounts, so a
/// non-conserving posting is expressible as data. Units move opposite to cash:
/// the buyer is the debit account because it pays.
#[derive(Debug, Clone, Copy, PartialEq, Eq, Structural)]
pub struct Posting {
    /// Index within this tick's journal, from zero.
    pub seq: u32,
    pub kind: PostingKind,
    pub debit: Account,
    pub credit: Account,
    /// Cents that left `debit`.
    pub debit_cents: i64,
    /// Cents that arrived at `credit`.
    pub credit_cents: i64,
    pub good: GoodId,
    /// Units that left the account they left.
    pub units_out: i64,
    /// Units that arrived where they arrived.
    pub units_in: i64,
    /// The books' cash residual after this posting.
    pub cash_residual_cents: i64,
    /// The books' goods residual after this posting.
    pub goods_residual_units: i64,
}

/// The spelling of a posting kind in a rendered posting.
pub open spec fn kind_text(k: PostingKind) -> Seq<char> {
    match k {
        PostingKind::Endow => "endow"@,
        PostingKind::Transfer => "transfer"@,
        PostingKind::Exchange => "exchange"@,
        PostingKind::Produce => "produce"@,
        PostingKind::Consume => "consume"@,
    }
}

/// `prefix` followed by the rendered form of a posting:
/// `#<seq> <kind> <debit> -> <credit> debit <n>c credit <n>c <good> out <n> in <n>`.
pub open spec fn posting_after(prefix: Seq<char>, p: Posting) -> Seq<char> {
    prefix + "#"@ + decimal(p.seq as int) + " "@ + kind_text(p.kind) + " "@ + account_text(
        p.debit,
    ) + " -> "@ + account_text(p.credit) + " debit "@ + decimal(p.debit_cents as int)
        + "c credit "@ + decimal(p.credit_cents as int) + "c "@ + good_text(p.good) + " out "@
        + decimal(p.units_out as int) + " in "@ + decimal(p.units_in as int)
}

/// The rendered form of a posting.
#[verifier::opaque]
pub open spec fn posting_text(p: Posting) -> Seq<char> {
    posting_after(Seq::empty(), p)
}

/// Rendering after a prefix is the prefix followed by the rendering.
#[verifier::rlimit(50)]
proof fn lemma_posting_after(prefix: Seq<char>, p: Posting)
    ensures
        posting_after(prefix, p) == prefix + posting_text(p),
{
    reveal(posting_text);
    assert(posting_after(prefix, p) =~= prefix + posting_after(Seq::empty(), p));
}

impl PostingKind {
    /// Appends the kind's spelling.
    pub fn write_to(&self, out: &mut String)
        ensures
            final(out)@ == old(out)@ + kind_text(*self),
    {
        match self {
            PostingKind::Endow => push_text(out, "endow"),
            PostingKind::Transfer => push_text(out, "transfer"),
            PostingKind::Exchange => push_text(out, "exchange"),
            PostingKind::Produce => push_text(out, "produce"),
            PostingKind::Consume => push_text(out, "consume"),
        }
    }
}

impl Posting {
    fn write_after(&self, out: &mut String)
        ensures
            final(out)@ == posting_after(old(out)@, *self),
    {
        push_text(out, "#");
        push_signed(out, self.seq as i128);
        push_text(out, " ");
        self.kind.write_to(out);
        push_text(out, " ");
        self.debit.write_to(out);
        push_text(out, " -> ");
        self.credit.write_to(out);
        push_text(out, " debit ");
        push_signed(out, self.debit_cents as i128);
        push_text(out, "c credit ");
        push_signed(out, self.credit_cents as i128);
        push_text(out, "c ");
        self.good.write_to(out);
        push_text(out, " out ");
        push_signed(out, self.units_out as i128);
        push_text(out, " in ");
        push_signed(out, self.units_in as i128);
    }

    /// Appends the rendered form.
    pub fn write_to(&self, out: &mut String)
        ensures
            final(out)@ == old(out)@ + posting_text(*self),
    {
        let ghost start = out@;
        self.write_after(out);
        proof {
            lemma_posting_after(start, *self);
        }
    }

    /// The rendered form: integer identifiers and integer amounts only.
    pub fn render(&self) -> (s: String)
        ensures
            s@ == posting_text(*self),
    {
        let mut s = empty_text();
        self.write_to(&mut s);
        assert(s@ =~= posting_text(*self));
        s
    }
}

/// The books declined to act, and nothing was written.
#[derive(Debug, Clone, Copy, PartialEq, Eq)]
pub enum PostError {
    /// The payer cannot cover the amount.
    Overdraft { account: Account, amount_cents: i64, balance_cents: i64 },
    /// The address names no account in these books, or names a firm identity
    /// whose generation no longer occupies its slot.
    UnknownAccount(Account),
    /// A negative amount is refused rather than treated as a reverse transfer.
    NegativeAmount { amount_cents: i64 },
    /// A two-party posting naming one account on both legs.
    SelfDealing { account: Account },
    /// A balance could not be represented after the move.
    Range(MoneyOverflow),
    /// The account holds fewer units of the good than asked for.
    ShortStock { account: Account, good: GoodId, units_requested: i64, units_held: i64 },
    /// The identifier names no good these books carry.
    UnknownGood(GoodId),
    /// An exchange with an empty leg: no cash, or no units, or neither.
    EmptyExchange { units: i64, amount_cents: i64 },
    /// A transfer of nothing.
    EmptyTransfer { amount_cents: i64 },
    /// A negative unit count.
    NegativeUnits { units: i64 },
}

/// The books could not be constructed from these parameters.
#[derive(Debug, Clone, Copy, PartialEq, Eq, Structural)]
pub enum BooksError {
    /// The per-agent endowments do not add up to the configured money stock.
    EndowmentDoesNotSumToStock { endowed_cents: i64, opening_cents: i64 },
    /// The configured initial inventory is negative, or too large for every
    /// slot's endowment to be counted.
    InitialInventoryOutOfRange { units_per_firm: i64, firms: u16 },
    /// The goods identity does not hold once every firm slot is endowed.
    InventoryDoesNotBalance { endowed_units: i64, residual_units: i64 },
}

/// Where a resolved account's quantities live.
#[derive(Debug, Clone, Copy, PartialEq, Eq, Structural)]
enum AccountSlot {
    Household(usize),
    Firm(usize),
}

/// The mathematical content of a [`Books`] value.
pub struct BooksView {
    /// The conservation baseline: the configured money stock.
    pub opening: i64,
    /// Cash by household index.
    pub household_cash: Seq<i64>,
    /// Cash by firm slot.
    pub firm_cash: Seq<i64>,
    /// The generation owning each firm slot's balance.
    pub generations: Seq<u32>,
    /// Stock by household index.
    pub household_stock: Seq<i64>,
    /// Stock by firm slot.
    pub firm_stock: Seq<i64>,
    /// Employees on each firm slot's payroll.
    pub headcount: Seq<u32>,
    /// Units that have entered the system, ever.
    pub produced: i64,
    /// Units that have left the system, ever.
    pub consumed: i64,
    /// This tick's postings.
    pub journal: Seq<Posting>,
    /// The sequence number the next posting receives.
    pub next_seq: u32,
    /// Cents posted so far, less the opening stock.
    pub cash_residual: i64,
    /// The goods identity's running residual, from the posting legs.
    pub goods_residual: i64,
    /// Cash transactions recorded this tick.
    pub transactions: u32,
}

impl BooksView {
    /// Whether `good` is one these books carry.
    pub open spec fn carries(good: GoodId) -> bool {
        good == only_good()
    }

    /// Whether `account` names an account in these books: a household index
    /// in range, or a firm slot in range at its current generation.
    pub open spec fn resolves(self, account: Account) -> bool {
        match account {
            Account::Household(h) => (h.0 as int) < self.household_cash.len(),
            Account::Firm(f) => (f.slot.0 as int) < self.generations.len()
                && self.generations[f.slot.0 as int] == f.generation,
        }
    }

    /// The cash a resolving account holds.
    pub open spec fn cash(self, account: Account) -> i64 {
        match account {
            Account::Household(h) => self.household_cash[h.0 as int],
            Account::Firm(f) => self.firm_cash[f.slot.0 as int],
        }
    }

    /// The stock a resolving account holds.
    pub open spec fn stock(self, account: Account) -> i64 {
        match account {
            Account::Household(h) => self.household_stock[h.0 as int],
            Account::Firm(f) => self.firm_stock[f.slot.0 as int],
        }
    }

    /// These books with `account`'s cash set to `v`.
    pub open spec fn with_cash(self, account: Account, v: i64) -> BooksView {
        match account {
            Account::Household(h) => BooksView {
                household_cash: self.household_cash.update(h.0 as int, v),
                ..self
            },
            Account::Firm(f) => BooksView {
                firm_cash: self.firm_cash.update(f.slot.0 as int, v),
                ..self
            },
        }
    }

    /// These books with `account`'s stock set to `v`.
    pub open spec fn with_stock(self, account: Account, v: i64) -> BooksView {
        match account {
            Account::Household(h) => BooksView {
                household_stock: self.household_stock.update(h.0 as int, v),
                ..self
            },
            Account::Firm(f) => BooksView {
                firm_stock: self.firm_stock.update(f.slot.0 as int, v),
                ..self
            },
        }
    }

    /// Every balance, households by ascending index then firm slots by
    /// ascending slot.
    pub open spec fn balances(self) -> Seq<i64> {
        self.household_cash + self.firm_cash
    }

    /// Every stock holding, in the same order.
    pub open spec fn stocks(self) -> Seq<i64> {
        self.household_stock + self.firm_stock
    }

    /// Every cent the books hold.
    pub open spec fn total_money(self) -> int {
        sum_ints(self.balances())
    }

    /// Every unit the books hold.
    pub open spec fn total_stock(self) -> int {
        sum_ints(self.stocks())
    }

    /// The goods identity recomputed from the fields: zero when it holds.
    pub open spec fn goods_identity(self) -> int {
        self.produced - self.consumed - self.total_stock()
    }

    /// The books' well-formedness: one balance and one stock per household,
    /// one balance, stock, generation and payroll per firm slot, no more
    /// accounts than the identity types can address, and the next sequence
    /// number equal to the journal's length (held at the 32-bit maximum).
    pub open spec fn wf(self) -> bool {
        &&& self.household_cash.len() == self.household_stock.len()
        &&& self.household_cash.len() <= u32::MAX + 1
        &&& self.firm_cash.len() == self.generations.len()
        &&& self.firm_stock.len() == self.generations.len()
        &&& self.headcount.len() == self.generations.len()
        &&& self.generations.len() <= u16::MAX
        &&& self.next_seq == (if self.journal.len() < u32::MAX {
            self.journal.len()
        } else {
            u32::MAX as nat
        })
    }

    /// The account each balance position belongs to, in the walk order.
    pub open spec fn account_at(self, i: int) -> Account {
        if i < self.household_cash.len() {
            Account::Household(HouseholdId(i as u32))
        } else {
            let slot = i - self.household_cash.len();
            Account::Firm(
                FirmId { slot: FirmSlot(slot as u16), generation: self.generations[slot] },
            )
        }
    }

    /// The cash change a posting claims: what arrived less what left,
    /// saturating.
    pub open spec fn cash_delta(p: Posting) -> int {
        clamp_i64(p.credit_cents - p.debit_cents)
    }

    /// A posting's own net effect on `produced − consumed − Σ stock`, read off
    /// its kind and legs, saturating at each step.
    pub open spec fn goods_delta(p: Posting) -> int {
        let produced_added: int = match p.kind {
            PostingKind::Produce | PostingKind::Endow => p.units_in as int,
            _ => 0,
        };
        let consumed_added: int = match p.kind {
            PostingKind::Consume => p.units_out as int,
            _ => 0,
        };
        clamp_i64(clamp_i64(clamp_i64(produced_added - consumed_added) + p.units_out) - p.units_in)
    }

    /// Whether a posting of this kind counts as a cash transaction.
    pub open spec fn is_transaction(kind: PostingKind) -> bool {
        kind == PostingKind::Transfer || kind == PostingKind::Exchange
    }

    /// These books after recording `draft`: the residuals advanced by the
    /// posting's own legs, the posting stamped with the sequence number and
    /// the new residuals and appended, the transaction count advanced for a
    /// transfer or an exchange.
    pub open spec fn record(self, draft: Posting) -> BooksView {
        let cash_residual = clamp_i64(self.cash_residual + BooksView::cash_delta(draft)) as i64;
        let goods_residual = clamp_i64(self.goods_residual + BooksView::goods_delta(draft)) as i64;
        BooksView {
            cash_residual,
            goods_residual,
            transactions: if BooksView::is_transaction(draft.kind) {
                clamp_u32(self.transactions + 1) as u32
            } else {
                self.transactions
            },
            journal: self.journal.push(
                Posting {
                    seq: self.next_seq,
                    cash_residual_cents: cash_residual,
                    goods_residual_units: goods_residual,
                    ..draft
                },
            ),
            next_seq: clamp_u32(self.next_seq + 1) as u32,
            ..self
        }
    }

    /// These books once the tick is closed: empty journal, sequence and
    /// transaction counters at zero, everything else as it was.
    pub open spec fn after_tick(self) -> BooksView {
        BooksView { journal: Seq::empty(), next_seq: 0, transactions: 0, ..self }
    }

    /// Why a transfer of `amount` from `from` to `to` is refused, checked in
    /// the order the operation checks it, or `None` when it completes.
    pub open spec fn transfer_refusal(self, from: Account, to: Account, amount: i64) -> Option<
        PostError,
    > {
        if amount < 0 {
            Some(PostError::NegativeAmount { amount_cents: amount })
        } else if amount == 0 {
            Some(PostError::EmptyTransfer { amount_cents: amount })
        } else if from == to {
            Some(PostError::SelfDealing { account: from })
        } else if !self.resolves(from) {
            Some(PostError::UnknownAccount(from))
        } else if !self.resolves(to) {
            Some(PostError::UnknownAccount(to))
        } else if !in_money_range(self.cash(from) - amount) {
            Some(PostError::Range(MoneyOverflow { lhs: self.cash(from), op: "-", rhs: amount }))
        } else if self.cash(from) - amount < 0 {
            Some(
                PostError::Overdraft {
                    account: from,
                    amount_cents: amount,
                    balance_cents: self.cash(from),
                },
            )
        } else if !in_money_range(self.cash(to) + amount) {
            Some(PostError::Range(MoneyOverflow { lhs: self.cash(to), op: "+", rhs: amount }))
        } else {
            None
        }
    }

    /// These books after a completed transfer: both balances moved by the
    /// amount, and one transfer posting recorded.
    pub open spec fn after_transfer(self, from: Account, to: Account, amount: i64) -> BooksView {
        self.with_cash(from, (self.cash(from) - amount) as i64).with_cash(
            to,
            (self.cash(to) + amount) as i64,
        ).record(draft(PostingKind::Transfer, from, to, amount, amount, only_good(), 0, 0))
    }

    /// Why producing `units` of `good` at `who` is refused, or `None`.
    pub open spec fn produce_refusal(self, who: Account, good: GoodId, units: i64) -> Option<
        PostError,
    > {
        if units < 0 {
            Some(PostError::NegativeUnits { units })
        } else if !BooksView::carries(good) {
            Some(PostError::UnknownGood(good))
        } else if !self.resolves(who) {
            Some(PostError::UnknownAccount(who))
        } else {
            None
        }
    }

    /// These books after a completed production.
    pub open spec fn after_produce(self, who: Account, good: GoodId, units: i64) -> BooksView {
        BooksView {
            produced: (self.produced + units) as i64,
            ..self.with_stock(who, (self.stock(who) + units) as i64)
        }.record(draft(PostingKind::Produce, who, who, 0, 0, good, 0, units))
    }

    /// Why consuming `units` of `good` held by `who` is refused, or `None`.
    pub open spec fn consume_refusal(self, who: Account, good: GoodId, units: i64) -> Option<
        PostError,
    > {
        if units < 0 {
            Some(PostError::NegativeUnits { units })
        } else if !BooksView::carries(good) {
            Some(PostError::UnknownGood(good))
        } else if !self.resolves(who) {
            Some(PostError::UnknownAccount(who))
        } else if self.stock(who) < units {
            Some(
                PostError::ShortStock {
                    account: who,
                    good,
                    units_requested: units,
                    units_held: self.stock(who),
                },
            )
        } else {
            None
        }
    }

    /// These books after a completed consumption.
    pub open spec fn after_consume(self, who: Account, good: GoodId, units: i64) -> BooksView {
        BooksView {
            consumed: (self.consumed + units) as i64,
            ..self.with_stock(who, (self.stock(who) - units) as i64)
        }.record(draft(PostingKind::Consume, who, who, 0, 0, good, units, 0))
    }

    /// Why an exchange is refused, checked in the order the operation checks
    /// it, or `None` when it completes.
    pub open spec fn exchange_refusal(
        self,
        buyer: Account,
        seller: Account,
        good: GoodId,
        units: i64,
        amount: i64,
    ) -> Option<PostError> {
        if amount < 0 {
            Some(PostError::NegativeAmount { amount_cents: amount })
        } else if units < 0 {
            Some(PostError::NegativeUnits { units })
        } else if amount == 0 || units == 0 {
            Some(PostError::EmptyExchange { units, amount_cents: amount })
        } else if buyer == seller {
            Some(PostError::SelfDealing { account: buyer })
        } else if !BooksView::carries(good) {
            Some(PostError::UnknownGood(good))
        } else if !self.resolves(buyer) {
            Some(PostError::UnknownAccount(buyer))
        } else if !self.resolves(seller) {
            Some(PostError::UnknownAccount(seller))
        } else if !in_money_range(self.cash(buyer) - amount) {
            Some(PostError::Range(MoneyOverflow { lhs: self.cash(buyer), op: "-", rhs: amount }))
        } else if self.cash(buyer) - amount < 0 {
            Some(
                PostError::Overdraft {
                    account: buyer,
                    amount_cents: amount,
                    balance_cents: self.cash(buyer),
                },
            )
        } else if !in_money_range(self.cash(seller) + amount) {
            Some(PostError::Range(MoneyOverflow { lhs: self.cash(seller), op: "+", rhs: amount }))
        } else if self.stock(seller) < units {
            Some(
                PostError::ShortStock {
                    account: seller,
                    good,
                    units_requested: units,
                    units_held: self.stock(seller),
                },
            )
        } else {
            None
        }
    }

    /// These books after a completed exchange: cash buyer to seller, units
    /// seller to buyer, one exchange posting.
    pub open spec fn after_exchange(
        self,
        buyer: Account,
        seller: Account,
        good: GoodId,
        units: i64,
        amount: i64,
    ) -> BooksView {
        self.with_cash(buyer, (self.cash(buyer) - amount) as i64).with_cash(
            seller,
            (self.cash(seller) + amount) as i64,
        ).with_stock(seller, (self.stock(seller) - units) as i64).with_stock(
            buyer,
            (self.stock(buyer) + units) as i64,
        ).record(draft(PostingKind::Exchange, buyer, seller, amount, amount, good, units, units))
    }
}

/// A posting of `kind` between `debit` and `credit`, with the three fields
/// the recorder owns left at zero.
pub open spec fn draft(
    kind: PostingKind,
    debit: Account,
    credit: Account,
    debit_cents: i64,
    credit_cents: i64,
    good: GoodId,
    units_out: i64,
    units_in: i64,
) -> Posting {
    Posting {
        seq: 0,
        kind,
        debit,
        credit,
        debit_cents,
        credit_cents,
        good,
        units_out,
        units_in,
        cash_residual_cents: 0,
        goods_residual_units: 0,
    }
}

/// `start` with `step` added `times` times, saturating at each addition.
pub open spec fn saturating_repeat(start: int, step: int, times: nat) -> int
    decreases times,
{
    if times == 0 {
        start
    } else {
        clamp_i64(saturating_repeat(start, step, (times - 1) as nat) + step)
    }
}

/// Saturating additions from a start in range stay in range.
pub proof fn lemma_saturating_repeat_in_range(start: int, step: int, times: nat)
    requires
        i64::MIN <= start <= i64::MAX,
    ensures
        i64::MIN <= saturating_repeat(start, step, times) <= i64::MAX,
    decreases times,
{
    if times > 0 {
        lemma_saturating_repeat_in_range(start, step, (times - 1) as nat);
    }
}

/// The cash residual once every agent's opening liquidity is posted against
/// the negated money stock: households first, then firm slots.
pub open spec fn endowment_residual(params: Params) -> int {
    saturating_repeat(
        saturating_repeat(
            -params.money.total_money_cents,
            params.household.initial_liquidity_cents as int,
            params.sim.households as nat,
        ),
        params.firm.initial_liquidity_cents as int,
        params.sim.firms as nat,
    )
}

/// Why the books cannot be built from `params`, in the order construction
/// checks it, or `None` when they can.
pub open spec fn construction_refusal(params: Params) -> Option<BooksError> {
    let opening = params.money.total_money_cents;
    let units = params.firm.initial_inventory_units;
    let firms = params.sim.firms;
    let residual = endowment_residual(params);
    if opening == i64::MIN {
        Some(BooksError::EndowmentDoesNotSumToStock { endowed_cents: 0, opening_cents: opening })
    } else if units < 0 || firms * units > i64::MAX {
        Some(BooksError::InitialInventoryOutOfRange { units_per_firm: units, firms: firms as u16 })
    } else if residual != 0 {
        Some(
            BooksError::EndowmentDoesNotSumToStock {
                endowed_cents: if i64::MIN <= residual + opening <= i64::MAX {
                    (residual + opening) as i64
                } else {
                    i64::MAX
                },
                opening_cents: opening,
            },
        )
    } else {
        None
    }
}

/// The books as construction leaves them: every household holding the
/// household liquidity, every firm slot the firm liquidity and the initial
/// inventory at generation zero with an empty payroll, the inventory counted
/// as produced, and an empty journal with both residuals at zero.
pub open spec fn opening_view(params: Params) -> BooksView {
    let households = params.sim.households as nat;
    let firms = params.sim.firms as nat;
    BooksView {
        opening: params.money.total_money_cents,
        household_cash: Seq::new(households, |i: int| params.household.initial_liquidity_cents),
        firm_cash: Seq::new(firms, |i: int| params.firm.initial_liquidity_cents),
        generations: Seq::new(firms, |i: int| 0u32),
        household_stock: Seq::new(households, |i: int| 0i64),
        firm_stock: Seq::new(firms, |i: int| params.firm.initial_inventory_units),
        headcount: Seq::new(firms, |i: int| 0u32),
        produced: (params.sim.firms * params.firm.initial_inventory_units) as i64,
        consumed: 0,
        journal: Seq::empty(),
        next_seq: 0,
        cash_residual: 0,
        goods_residual: 0,
        transactions: 0,
    }
}

/// The sum of a sequence of counts.
pub open spec fn sum_counts(s: Seq<u32>) -> int
    decreases s.len(),
{
    if s.len() == 0 {
        0
    } else {
        sum_counts(s.drop_last()) + s.last()
    }
}

/// A sum of counts is no more than the largest count times their number.
proof fn lemma_sum_counts_bound(s: Seq<u32>)
    ensures
        0 <= sum_counts(s) <= s.len() * 0xffff_ffff,
    decreases s.len(),
{
    if s.len() > 0 {
        lemma_sum_counts_bound(s.drop_last());
    }
}

/// The sum of `a` followed by `b`, every running total of which must fit.
fn sum_two(a: &Vec<i64>, b: &Vec<i64>) -> (total: i64)
    requires
        prefix_sums_fit(a@ + b@),
    ensures
        total == sum_ints(a@ + b@),
{
    let ghost both = a@ + b@;
    let mut total: i64 = 0;
    let mut i: usize = 0;
    while i < a.len()
        invariant
            i <= a.len(),
            both == a@ + b@,
            prefix_sums_fit(both),
            total == sum_ints(both.take(i as int)),
        decreases a.len() - i,
    {
        assert(both.take(i + 1).drop_last() =~= both.take(i as int));
        assert(i64::MIN <= sum_ints(both.take(i + 1)) <= i64::MAX);
        total = total + a[i];
        i = i + 1;
    }
    let mut j: usize = 0;
    while j < b.len()
        invariant
            j <= b.len(),
            both == a@ + b@,
            prefix_sums_fit(both),
            total == sum_ints(both.take((a@.len() + j) as int)),
        decreases b.len() - j,
    {
        assert(both.take((a@.len() + j + 1) as int).drop_last() =~= both.take((a@.len() + j) as int));
        assert(i64::MIN <= sum_ints(both.take((a@.len() + j + 1) as int)) <= i64::MAX);
        total = total + b[j];
        j = j + 1;
    }
    assert(both.take((a@.len() + b@.len()) as int) =~= both);
    total
}

/// `n` copies of `value`.
fn filled_i64(value: i64, n: usize) -> (v: Vec<i64>)
    ensures
        v@ == Seq::new(n as nat, |i: int| value),
{
    let mut v: Vec<i64> = Vec::new();
    let mut k: usize = 0;
    while k < n
        invariant
            k <= n,
            v@ == Seq::new(k as nat, |i: int| value),
        decreases n - k,
    {
        v.push(value);
        k = k + 1;
        assert(v@ =~= Seq::new(k as nat, |i: int| value));
    }
    v
}

/// `n` copies of `value`.
fn filled_u32(value: u32, n: usize) -> (v: Vec<u32>)
    ensures
        v@ == Seq::new(n as nat, |i: int| value),
{
    let mut v: Vec<u32> = Vec::new();
    let mut k: usize = 0;
    while k < n
        invariant
            k <= n,
            v@ == Seq::new(k as nat, |i: int| value),
        decreases n - k,
    {
        v.push(value);
        k = k + 1;
        assert(v@ =~= Seq::new(k as nat, |i: int| value));
    }
    v
}

/// Every cent and every unit in the simulation, plus this tick's journal.
///
/// All fields are private and there is exactly one constructor.
#[derive(Debug, Clone)]
pub struct Books {
    opening_stock: i64,
    household_cash: Vec<i64>,
    firm_cash: Vec<i64>,
    firm_generation: Vec<u32>,
    household_stock: Vec<i64>,
    firm_stock: Vec<i64>,
    firm_headcount: Vec<u32>,
    produced: i64,
    consumed: i64,
    journal: Vec<Posting>,
    next_seq: u32,
    cash_residual_cents: i64,
    goods_residual_units: i64,
    transactions_this_tick: u32,
}

impl View for Books {
    type V = BooksView;

    closed spec fn view(&self) -> BooksView {
        BooksView {
            opening: self.opening_stock,
            household_cash: self.household_cash@,
            firm_cash: self.firm_cash@,
            generations: self.firm_generation@,
            household_stock: self.household_stock@,
            firm_stock: self.firm_stock@,
            headcount: self.firm_headcount@,
            produced: self.produced,
            consumed: self.consumed,
            journal: self.journal@,
            next_seq: self.next_seq,
            cash_residual: self.cash_residual_cents,
            goods_residual: self.goods_residual_units,
            transactions: self.transactions_this_tick,
        }
    }
}

impl Books {
    /// The books' well-formedness, which every operation keeps.
    pub open spec fn inv(&self) -> bool {
        self@.wf()
    }

    /// Whether these books carry `good`.
    fn carries(good: GoodId) -> (b: bool)
        ensures
            b == BooksView::carries(good),
    {
        good.0 == 0
    }

    /// Where `account`'s quantities live, or `None` if it names no account
    /// here.
    fn resolve(&self, account: Account) -> (r: Option<AccountSlot>)
        requires
            self.inv(),
        ensures
            r is Some <==> self@.resolves(account),
            r matches Some(slot) ==> self.slot_of(slot) == account && self.slot_ok(slot),
    {
        match account {
            Account::Household(household) => {
                let index = household.0 as usize;
                if index < self.household_cash.len() {
                    Some(AccountSlot::Household(index))
                } else {
                    None
                }
            },
            Account::Firm(firm) => {
                let index = firm.slot.0 as usize;
                if index < self.firm_generation.len() && self.firm_generation[index]
                    == firm.generation {
                    Some(AccountSlot::Firm(index))
                } else {
                    None
                }
            },
        }
    }

    /// The account a resolved slot belongs to.
    spec fn slot_of(&self, slot: AccountSlot) -> Account {
        match slot {
            AccountSlot::Household(i) => Account::Household(HouseholdId(i as u32)),
            AccountSlot::Firm(i) => Account::Firm(
                FirmId { slot: FirmSlot(i as u16), generation: self.firm_generation@[i as int] },
            ),
        }
    }

    /// Whether a slot indexes inside its vectors.
    spec fn slot_ok(&self, slot: AccountSlot) -> bool {
        match slot {
            AccountSlot::Household(i) => i < self.household_cash@.len() && i <= u32::MAX,
            AccountSlot::Firm(i) => i < self.firm_generation@.len() && i <= u16::MAX,
        }
    }

    fn cash_at(&self, slot: AccountSlot) -> (c: i64)
        requires
            self.inv(),
            self.slot_ok(slot),
        ensures
            c == self@.cash(self.slot_of(slot)),
    {
        match slot {
            AccountSlot::Household(index) => self.household_cash[index],
            AccountSlot::Firm(index) => self.firm_cash[index],
        }
    }

    fn stock_at(&self, slot: AccountSlot) -> (c: i64)
        requires
            self.inv(),
            self.slot_ok(slot),
        ensures
            c == self@.stock(self.slot_of(slot)),
    {
        match slot {
            AccountSlot::Household(index) => self.household_stock[index],
            AccountSlot::Firm(index) => self.firm_stock[index],
        }
    }

    fn write_cash(&mut self, slot: AccountSlot, value: i64)
        requires
            old(self).inv(),
            old(self).slot_ok(slot),
        ensures
            final(self)@ == old(self)@.with_cash(old(self).slot_of(slot), value),
            final(self).firm_generation@ == old(self).firm_generation@,
    {
        match slot {
            AccountSlot::Household(index) => self.household_cash.set(index, value),
            AccountSlot::Firm(index) => self.firm_cash.set(index, value),
        }
        assert(self@ == old(self)@.with_cash(old(self).slot_of(slot), value));
    }

    fn write_stock(&mut self, slot: AccountSlot, value: i64)
        requires
            old(self).inv(),
            old(self).slot_ok(slot),
        ensures
            final(self)@ == old(self)@.with_stock(old(self).slot_of(slot), value),
            final(self).firm_generation@ == old(self).firm_generation@,
    {
        match slot {
            AccountSlot::Household(index) => self.household_stock.set(index, value),
            AccountSlot::Firm(index) => self.firm_stock.set(index, value),
        }
        assert(self@ == old(self)@.with_stock(old(self).slot_of(slot), value));
    }

    /// Build the books from the run's parameters and endow every agent.
    ///
    /// The conservation baseline is the configured money stock, and the cash
    /// residual is seeded to its negation. Every household is endowed with the
    /// household liquidity and every firm slot with the firm liquidity and the
    /// initial inventory, each as an endowment posting through the recorder;
    /// the inventory is counted into the produced total. Both residuals must
    /// then be back at zero. The journal is cleared, so tick zero begins with
    /// an empty one.
    pub fn new(params: &Params) -> (r: Result<Books, BooksError>)
        requires
            params.sim.firms <= u16::MAX,
        ensures
            match construction_refusal(*params) {
                Some(e) => r == Err::<Books, BooksError>(e),
                None => r matches Ok(books) && books.inv() && books@ == opening_view(*params),
            },
    {
        let opening_cents = params.money.total_money_cents;
        let firm_slots = params.sim.firms as u16;
        let households = params.sim.households as usize;
        let firms = firm_slots as usize;
        if opening_cents == i64::MIN {
            return Err(
                BooksError::EndowmentDoesNotSumToStock { endowed_cents: 0, opening_cents },
            );
        }
        let residual_seed = -opening_cents;
        let units_per_firm = params.firm.initial_inventory_units;
        assert(-0x8000_0000_0000_0000 * 0x1_0000 <= (firm_slots as int) * (units_per_firm as int)
            <= 0x7fff_ffff_ffff_ffff * 0x1_0000) by (nonlinear_arith)
            requires
                0 <= firm_slots <= 0xffff,
                -0x8000_0000_0000_0000 <= units_per_firm <= 0x7fff_ffff_ffff_ffff,
        ;
        let product: i128 = (firm_slots as i128) * (units_per_firm as i128);
        if units_per_firm < 0 || product > i64::MAX as i128 {
            return Err(
                BooksError::InitialInventoryOutOfRange { units_per_firm, firms: firm_slots },
            );
        }
        let endowed_units = product as i64;
        let mut books = Books {
            opening_stock: opening_cents,
            household_cash: filled_i64(params.household.initial_liquidity_cents, households),
            firm_cash: filled_i64(params.firm.initial_liquidity_cents, firms),
            firm_generation: filled_u32(0, firms),
            household_stock: filled_i64(0, households),
            firm_stock: filled_i64(units_per_firm, firms),
            firm_headcount: filled_u32(0, firms),
            produced: endowed_units,
            consumed: 0,
            journal: Vec::new(),
            next_seq: 0,
            cash_residual_cents: residual_seed,
            goods_residual_units: 0,
            transactions_this_tick: 0,
        };
        let ghost base = books@;
        let household_liquidity = params.household.initial_liquidity_cents;
        let mut index: u32 = 0;
        while index < params.sim.households
            invariant
                index <= params.sim.households,
                books.inv(),
                books@ == (BooksView {
                    cash_residual: saturating_repeat(
                        residual_seed as int,
                        household_liquidity as int,
                        index as nat,
                    ) as i64,
                    journal: books@.journal,
                    next_seq: books@.next_seq,
                    ..base
                }),
            decreases params.sim.households - index,
        {
            proof {
                lemma_saturating_repeat_in_range(residual_seed as int, household_liquidity as int, index as nat);
                lemma_saturating_repeat_in_range(residual_seed as int, household_liquidity as int, (index + 1) as nat);
            }
            let account = Account::Household(HouseholdId(index));
            self::Books::record(
                &mut books,
                Posting {
                    seq: 0,
                    kind: PostingKind::Endow,
                    debit: account,
                    credit: account,
                    debit_cents: 0,
                    credit_cents: household_liquidity,
                    good: GoodId(0),
                    units_out: 0,
                    units_in: 0,
                    cash_residual_cents: 0,
                    goods_residual_units: 0,
                },
            );
            index = index + 1;
        }
        let ghost after_households = saturating_repeat(
            residual_seed as int,
            household_liquidity as int,
            params.sim.households as nat,
        );
        proof {
            lemma_saturating_repeat_in_range(
                residual_seed as int,
                household_liquidity as int,
                params.sim.households as nat,
            );
        }
        let firm_liquidity = params.firm.initial_liquidity_cents;
        let mut slot: u16 = 0;
        while slot < firm_slots
            invariant
                slot <= firm_slots,
                firm_slots == params.sim.firms,
                firms == firm_slots,
                i64::MIN <= after_households <= i64::MAX,
                0 <= units_per_firm,
                books.inv(),
                books.firm_generation@ == Seq::new(firms as nat, |i: int| 0u32),
                books@ == (BooksView {
                    cash_residual: saturating_repeat(
                        after_households,
                        firm_liquidity as int,
                        slot as nat,
                    ) as i64,
                    journal: books@.journal,
                    next_seq: books@.next_seq,
                    ..base
                }),
            decreases firm_slots - slot,
        {
            proof {
                lemma_saturating_repeat_in_range(after_households, firm_liquidity as int, slot as nat);
                lemma_saturating_repeat_in_range(after_households, firm_liquidity as int, (slot + 1) as nat);
            }
            let generation = books.firm_generation[slot as usize];
            let account = Account::Firm(FirmId { slot: FirmSlot(slot), generation });
            books.record(
                Posting {
                    seq: 0,
                    kind: PostingKind::Endow,
                    debit: account,
                    credit: account,
                    debit_cents: 0,
                    credit_cents: firm_liquidity,
                    good: GoodId(0),
                    units_out: 0,
                    units_in: 0,
                    cash_residual_cents: 0,
                    goods_residual_units: 0,
                },
            );
            books.record(
                Posting {
                    seq: 0,
                    kind: PostingKind::Endow,
                    debit: account,
                    credit: account,
                    debit_cents: 0,
                    credit_cents: 0,
                    good: GoodId(0),
                    units_out: 0,
                    units_in: units_per_firm,
                    cash_residual_cents: 0,
                    goods_residual_units: 0,
                },
            );
            slot = slot + 1;
        }
        proof {
            lemma_saturating_repeat_in_range(residual_seed as int, household_liquidity as int, params.sim.households as nat);
            lemma_saturating_repeat_in_range(after_households, firm_liquidity as int, params.sim.firms as nat);
        }
        if books.cash_residual_cents != 0 {
            let endowed_cents = match books.cash_residual_cents.checked_add(opening_cents) {
                Some(c) => c,
                None => i64::MAX,
            };
            return Err(BooksError::EndowmentDoesNotSumToStock { endowed_cents, opening_cents });
        }
        if books.goods_residual_units != 0 {
            return Err(
                BooksError::InventoryDoesNotBalance {
                    endowed_units,
                    residual_units: books.goods_residual_units,
                },
            );
        }
        books.journal.clear();
        books.next_seq = 0;
        books.transactions_this_tick = 0;
        assert(books@ =~= opening_view(*params));
        Ok(books)
    }

    /// Move `amount` from `from` to `to`, returning the amount moved.
    ///
    /// The only cash-mutation point of the public interface. Every check runs
    /// before the first write, so a refusal leaves the books exactly as they
    /// were.
    pub fn transfer(&mut self, from: Account, to: Account, amount: Money) -> (r: Result<
        Money,
        PostError,
    >)
        requires
            old(self).inv(),
        ensures
            final(self).inv(),
            match old(self)@.transfer_refusal(from, to, amount.spec_cents() as i64) {
                Some(e) => r == Err::<Money, PostError>(e) && final(self)@ == old(self)@,
                None => r == Ok::<Money, PostError>(amount) && final(self)@ == old(
                    self,
                )@.after_transfer(from, to, amount.spec_cents() as i64),
            },
    {
        let cents = amount.cents();
        if cents < 0 {
            return Err(PostError::NegativeAmount { amount_cents: cents });
        }
        if cents == 0 {
            return Err(PostError::EmptyTransfer { amount_cents: cents });
        }
        if from == to {
            return Err(PostError::SelfDealing { account: from });
        }
        let payer_slot = match self.resolve(from) {
            Some(slot) => slot,
            None => return Err(PostError::UnknownAccount(from)),
        };
        let payee_slot = match self.resolve(to) {
            Some(slot) => slot,
            None => return Err(PostError::UnknownAccount(to)),
        };
        let payer_balance = self.cash_at(payer_slot);
        let payer_after = match payer_balance.checked_sub(cents) {
            Some(c) => c,
            None => {
                return Err(
                    PostError::Range(MoneyOverflow { lhs: payer_balance, op: "-", rhs: cents }),
                )
            },
        };
        if payer_after < 0 {
            return Err(
                PostError::Overdraft {
                    account: from,
                    amount_cents: cents,
                    balance_cents: payer_balance,
                },
            );
        }
        let payee_balance = self.cash_at(payee_slot);
        let payee_after = match payee_balance.checked_add(cents) {
            Some(c) => c,
            None => {
                return Err(
                    PostError::Range(MoneyOverflow { lhs: payee_balance, op: "+", rhs: cents }),
                )
            },
        };
        self.write_cash(payer_slot, payer_after);
        self.write_cash(payee_slot, payee_after);
        self.record(
            Posting {
                seq: 0,
                kind: PostingKind::Transfer,
                debit: from,
                credit: to,
                debit_cents: cents,
                credit_cents: cents,
                good: GoodId(0),
                units_out: 0,
                units_in: 0,
                cash_residual_cents: 0,
                goods_residual_units: 0,
            },
        );
        Ok(amount)
    }

    /// Bring `units` of `good` into existence at `who`, returning the units
    /// created. The one place a unit enters the system; not a transaction.
    pub fn produce(&mut self, who: Account, good: GoodId, units: i64) -> (r: Result<i64, PostError>)
        requires
            old(self).inv(),
            old(self)@.produce_refusal(who, good, units) is None ==> old(self)@.stock(who) + units
                <= i64::MAX && old(self)@.produced + units <= i64::MAX,
        ensures
            final(self).inv(),
            match old(self)@.produce_refusal(who, good, units) {
                Some(e) => r == Err::<i64, PostError>(e) && final(self)@ == old(self)@,
                None => r == Ok::<i64, PostError>(units) && final(self)@ == old(
                    self,
                )@.after_produce(who, good, units),
            },
    {
        if units < 0 {
            return Err(PostError::NegativeUnits { units });
        }
        if !Books::carries(good) {
            return Err(PostError::UnknownGood(good));
        }
        let slot = match self.resolve(who) {
            Some(slot) => slot,
            None => return Err(PostError::UnknownAccount(who)),
        };
        let stock_after = self.stock_at(slot) + units;
        let produced_after = self.produced + units;
        self.write_stock(slot, stock_after);
        self.produced = produced_after;
        self.record(
            Posting {
                seq: 0,
                kind: PostingKind::Produce,
                debit: who,
                credit: who,
                debit_cents: 0,
                credit_cents: 0,
                good,
                units_out: 0,
                units_in: units,
                cash_residual_cents: 0,
                goods_residual_units: 0,
            },
        );
        Ok(units)
    }

    /// Consume `units` of `good` held by `who`, returning the units consumed.
    /// The one place a unit leaves the system; refuses rather than driving the
    /// stock negative. Not a transaction.
    pub fn consume(&mut self, who: Account, good: GoodId, units: i64) -> (r: Result<i64, PostError>)
        requires
            old(self).inv(),
            old(self)@.consume_refusal(who, good, units) is None ==> old(self)@.consumed + units
                <= i64::MAX,
        ensures
            final(self).inv(),
            match old(self)@.consume_refusal(who, good, units) {
                Some(e) => r == Err::<i64, PostError>(e) && final(self)@ == old(self)@,
                None => r == Ok::<i64, PostError>(units) && final(self)@ == old(
                    self,
                )@.after_consume(who, good, units),
            },
    {
        if units < 0 {
            return Err(PostError::NegativeUnits { units });
        }
        if !Books::carries(good) {
            return Err(PostError::UnknownGood(good));
        }
        let slot = match self.resolve(who) {
            Some(slot) => slot,
            None => return Err(PostError::UnknownAccount(who)),
        };
        let held = self.stock_at(slot);
        if held < units {
            return Err(
                PostError::ShortStock { account: who, good, units_requested: units, units_held: held },
            );
        }
        let stock_after = held - units;
        let consumed_after = self.consumed + units;
        self.write_stock(slot, stock_after);
        self.consumed = consumed_after;
        self.record(
            Posting {
                seq: 0,
                kind: PostingKind::Consume,
                debit: who,
                credit: who,
                debit_cents: 0,
                credit_cents: 0,
                good,
                units_out: units,
                units_in: 0,
                cash_residual_cents: 0,
                goods_residual_units: 0,
            },
        );
        Ok(units)
    }

    /// Move `amount` from `buyer` to `seller` and `units` of `good` from
    /// `seller` to `buyer` as one posting, returning both quantities moved.
    pub fn exchange(
        &mut self,
        buyer: Account,
        seller: Account,
        good: GoodId,
        units: i64,
        amount: Money,
    ) -> (r: Result<(Money, i64), PostError>)
        requires
            old(self).inv(),
            old(self)@.exchange_refusal(buyer, seller, good, units, amount.spec_cents() as i64) is None
                ==> old(self)@.stock(buyer) + units <= i64::MAX,
        ensures
            final(self).inv(),
            match old(self)@.exchange_refusal(buyer, seller, good, units, amount.spec_cents() as i64) {
                Some(e) => r == Err::<(Money, i64), PostError>(e) && final(self)@ == old(self)@,
                None => r == Ok::<(Money, i64), PostError>((amount, units)) && final(self)@ == old(
                    self,
                )@.after_exchange(buyer, seller, good, units, amount.spec_cents() as i64),
            },
    {
        let cents = amount.cents();
        if cents < 0 {
            return Err(PostError::NegativeAmount { amount_cents: cents });
        }
        if units < 0 {
            return Err(PostError::NegativeUnits { units });
        }
        if cents == 0 || units == 0 {
            return Err(PostError::EmptyExchange { units, amount_cents: cents });
        }
        if buyer == seller {
            return Err(PostError::SelfDealing { account: buyer });
        }
        if !Books::carries(good) {
            return Err(PostError::UnknownGood(good));
        }
        let buyer_slot = match self.resolve(buyer) {
            Some(slot) => slot,
            None => return Err(PostError::UnknownAccount(buyer)),
        };
        let seller_slot = match self.resolve(seller) {
            Some(slot) => slot,
            None => return Err(PostError::UnknownAccount(seller)),
        };
        let buyer_balance = self.cash_at(buyer_slot);
        let buyer_cash_after = match buyer_balance.checked_sub(cents) {
            Some(c) => c,
            None => {
                return Err(
                    PostError::Range(MoneyOverflow { lhs: buyer_balance, op: "-", rhs: cents }),
                )
            },
        };
        if buyer_cash_after < 0 {
            return Err(
                PostError::Overdraft {
                    account: buyer,
                    amount_cents: cents,
                    balance_cents: buyer_balance,
                },
            );
        }
        let seller_balance = self.cash_at(seller_slot);
        let seller_cash_after = match seller_balance.checked_add(cents) {
            Some(c) => c,
            None => {
                return Err(
                    PostError::Range(MoneyOverflow { lhs: seller_balance, op: "+", rhs: cents }),
                )
            },
        };
        let seller_held = self.stock_at(seller_slot);
        if seller_held < units {
            return Err(
                PostError::ShortStock {
                    account: seller,
                    good,
                    units_requested: units,
                    units_held: seller_held,
                },
            );
        }
        let seller_stock_after = seller_held - units;
        let buyer_stock_after = self.stock_at(buyer_slot) + units;
        self.write_cash(buyer_slot, buyer_cash_after);
        self.write_cash(seller_slot, seller_cash_after);
        self.write_stock(seller_slot, seller_stock_after);
        self.write_stock(buyer_slot, buyer_stock_after);
        self.record(
            Posting {
                seq: 0,
                kind: PostingKind::Exchange,
                debit: buyer,
                credit: seller,
                debit_cents: cents,
                credit_cents: cents,
                good,
                units_out: units,
                units_in: units,
                cash_residual_cents: 0,
                goods_residual_units: 0,
            },
        );
        Ok((amount, units))
    }

    /// The cash `account` holds, or `None` if it names no account in these
    /// books, including a firm identity whose generation no longer occupies
    /// its slot.
    pub fn cash_of(&self, account: Account) -> (r: Option<Money>)
        requires
            self.inv(),
        ensures
            r == (if self@.resolves(account) {
                Some(Money::spec_from_cents(self@.cash(account)))
            } else {
                None
            }),
    {
        match self.resolve(account) {
            Some(slot) => Some(Money::from_cents(self.cash_at(slot))),
            None => None,
        }
    }

    /// Every account these books hold, in the order the non-negativity check
    /// walks them: households by ascending index, then firm slots by
    /// ascending slot, each firm named by the identity occupying it.
    pub fn accounts(&self) -> (r: Vec<Account>)
        requires
            self.inv(),
        ensures
            r@.len() == self@.balances().len(),
            forall|i: int| 0 <= i < r@.len() ==> r@[i] == self@.account_at(i),
    {
        let mut r: Vec<Account> = Vec::new();
        let households = self.household_cash.len();
        let mut i: usize = 0;
        while i < households
            invariant
                self.inv(),
                households == self@.household_cash.len(),
                i <= households,
                r@.len() == i,
                forall|k: int| 0 <= k < r@.len() ==> r@[k] == self@.account_at(k),
            decreases households - i,
        {
            r.push(Account::Household(HouseholdId(i as u32)));
            i = i + 1;
        }
        let firms = self.firm_generation.len();
        let mut j: usize = 0;
        while j < firms
            invariant
                self.inv(),
                households == self@.household_cash.len(),
                firms == self@.generations.len(),
                j <= firms,
                r@.len() == households + j,
                forall|k: int| 0 <= k < r@.len() ==> r@[k] == self@.account_at(k),
            decreases firms - j,
        {
            r.push(
                Account::Firm(
                    FirmId { slot: FirmSlot(j as u16), generation: self.firm_generation[j] },
                ),
            );
            j = j + 1;
        }
        r
    }

    /// Every cent the books hold, summed over the balances: households, then
    /// firm slots.
    pub fn total_money(&self) -> (m: Money)
        requires
            prefix_sums_fit(self@.balances()),
        ensures
            m.spec_cents() == self@.total_money(),
    {
        Money::from_cents(sum_two(&self.household_cash, &self.firm_cash))
    }

    /// Every cent held by firms.
    pub fn firm_cash_total(&self) -> (m: Money)
        requires
            prefix_sums_fit(self@.firm_cash),
        ensures
            m.spec_cents() == sum_ints(self@.firm_cash),
    {
        Money::from_cents(sum_i64(self.firm_cash.as_slice()))
    }

    /// The conservation baseline: the configured money stock.
    pub fn opening_stock(&self) -> (m: Money)
        ensures
            m.spec_cents() == self@.opening,
    {
        Money::from_cents(self.opening_stock)
    }

    /// Cents posted so far, less the opening stock. Zero when the run
    /// conserves.
    pub fn cash_residual_cents(&self) -> (c: i64)
        ensures
            c == self@.cash_residual,
    {
        self.cash_residual_cents
    }

    /// Every good these books carry.
    pub fn goods(&self) -> (g: Vec<GoodId>)
        ensures
            g@ == seq![only_good()],
    {
        let mut g: Vec<GoodId> = Vec::new();
        g.push(GoodId(0));
        g
    }

    /// The units of `good` that `account` holds, or `None` if either names
    /// nothing in these books.
    pub fn stock_of(&self, account: Account, good: GoodId) -> (r: Option<i64>)
        requires
            self.inv(),
        ensures
            r == (if BooksView::carries(good) && self@.resolves(account) {
                Some(self@.stock(account))
            } else {
                None
            }),
    {
        if !Books::carries(good) {
            return None;
        }
        match self.resolve(account) {
            Some(slot) => Some(self.stock_at(slot)),
            None => None,
        }
    }

    /// Every unit of `good` the books hold; zero for a good they do not carry.
    pub fn total_stock(&self, good: GoodId) -> (t: i64)
        requires
            BooksView::carries(good) ==> prefix_sums_fit(self@.stocks()),
        ensures
            t == (if BooksView::carries(good) {
                self@.total_stock()
            } else {
                0
            }),
    {
        if !Books::carries(good) {
            return 0;
        }
        sum_two(&self.household_stock, &self.firm_stock)
    }

    /// Units of `good` that have entered the system, ever.
    pub fn produced(&self, good: GoodId) -> (t: i64)
        ensures
            t == (if BooksView::carries(good) {
                self@.produced
            } else {
                0
            }),
    {
        if !Books::carries(good) {
            return 0;
        }
        self.produced
    }

    /// Units of `good` that have left the system, ever.
    pub fn consumed(&self, good: GoodId) -> (t: i64)
        ensures
            t == (if BooksView::carries(good) {
                self@.consumed
            } else {
                0
            }),
    {
        if !Books::carries(good) {
            return 0;
        }
        self.consumed
    }

    /// The goods identity's running residual, from the posting legs. Zero
    /// when the run conserves.
    pub fn goods_residual_units(&self) -> (u: i64)
        ensures
            u == self@.goods_residual,
    {
        self.goods_residual_units
    }

    /// The goods residual attributed to `good`: the whole running residual
    /// for the one good these books carry, zero for any other.
    pub fn goods_residual_units_for(&self, good: GoodId) -> (u: i64)
        ensures
            u == (if BooksView::carries(good) {
                self@.goods_residual
            } else {
                0
            }),
    {
        if !Books::carries(good) {
            return 0;
        }
        self.goods_residual_units
    }

    /// The employees on `slot`'s payroll, or `None` if `slot` names no firm
    /// slot in these books.
    pub fn headcount_of(&self, slot: FirmSlot) -> (r: Option<u32>)
        ensures
            r == (if (slot.0 as int) < self@.headcount.len() {
                Some(self@.headcount[slot.0 as int])
            } else {
                None
            }),
    {
        let index = slot.0 as usize;
        if index < self.firm_headcount.len() {
            Some(self.firm_headcount[index])
        } else {
            None
        }
    }

    /// Set `slot`'s payroll to `count`, returning the count it replaced, or
    /// `None`, writing nothing, if `slot` names no firm slot here.
    pub fn set_headcount(&mut self, slot: FirmSlot, count: u32) -> (r: Option<u32>)
        requires
            old(self).inv(),
        ensures
            final(self).inv(),
            (slot.0 as int) < old(self)@.headcount.len() ==> r == Some(
                old(self)@.headcount[slot.0 as int],
            ) && final(self)@ == (BooksView {
                headcount: old(self)@.headcount.update(slot.0 as int, count),
                ..old(self)@
            }),
            (slot.0 as int) >= old(self)@.headcount.len() ==> r is None && final(self)@ == old(
                self,
            )@,
    {
        let index = slot.0 as usize;
        if index < self.firm_headcount.len() {
            let previous = self.firm_headcount[index];
            self.firm_headcount.set(index, count);
            assert(self@ =~= (BooksView {
                headcount: old(self)@.headcount.update(slot.0 as int, count),
                ..old(self)@
            }));
            Some(previous)
        } else {
            None
        }
    }

    /// Every employee on every payroll, as a 64-bit count.
    pub fn total_headcount(&self) -> (t: u64)
        requires
            self.inv(),
        ensures
            t == sum_counts(self@.headcount),
    {
        let n = self.firm_headcount.len();
        let mut total: u64 = 0;
        let mut i: usize = 0;
        while i < n
            invariant
                self.inv(),
                n == self@.headcount.len(),
                i <= n,
                total == sum_counts(self@.headcount.take(i as int)),
            decreases n - i,
        {
            assert(self@.headcount.take(i + 1).drop_last() =~= self@.headcount.take(i as int));
            proof {
                lemma_sum_counts_bound(self@.headcount.take(i as int));
            }
            total = total + self.firm_headcount[i] as u64;
            i = i + 1;
        }
        assert(self@.headcount.take(n as int) =~= self@.headcount);
        total
    }

    /// Whether every running total of the balances, of the stocks and of
    /// the firm balances, summed in the account walk order, fits a signed
    /// 64-bit integer: what the audits and the log need to add them up.
    pub fn totals_fit(&self) -> (fit: bool)
        ensures
            fit == (prefix_sums_fit(self@.balances()) && prefix_sums_fit(self@.stocks())
                && prefix_sums_fit(self@.firm_cash)),
    {
        let empty: Vec<i64> = Vec::new();
        assert(empty@ + self@.firm_cash =~= self@.firm_cash);
        running_totals_fit(self.household_cash.as_slice(), self.firm_cash.as_slice())
            && running_totals_fit(self.household_stock.as_slice(), self.firm_stock.as_slice())
            && running_totals_fit(empty.as_slice(), self.firm_cash.as_slice())
    }

    /// This tick's postings, in the order they were recorded.
    pub fn journal(&self) -> (j: &[Posting])
        ensures
            j@ == self@.journal,
    {
        self.journal.as_slice()
    }

    /// How many cash transactions this tick has recorded: transfers and
    /// exchanges, nothing else.
    pub fn transactions_this_tick(&self) -> (n: u32)
        ensures
            n == self@.transactions,
    {
        self.transactions_this_tick
    }

    /// Close the tick: clear the journal and reset the sequence and
    /// transaction counters. The running residuals are not reset.
    pub fn end_of_tick(&mut self)
        requires
            old(self).inv(),
        ensures
            final(self).inv(),
            final(self)@ == old(self)@.after_tick(),
    {
        self.journal.clear();
        self.next_seq = 0;
        self.transactions_this_tick = 0;
        assert(self@ =~= old(self)@.after_tick());
    }

    /// Move `cents` from `debit` to `credit`, credit `delta_cents` more than
    /// was debited, and record the transfer posting that says so, returning
    /// it as the recorder stamped it. A fault injected on purpose: the
    /// balances and the journal residual move together by `delta_cents`.
    pub fn corrupt_recorded_cash(
        &mut self,
        debit: Account,
        credit: Account,
        cents: i64,
        delta_cents: i64,
    ) -> (p: Posting)
        requires
            old(self).inv(),
            debit != credit,
            old(self)@.resolves(debit),
            old(self)@.resolves(credit),
            i64::MIN <= old(self)@.cash(debit) - cents <= i64::MAX,
            i64::MIN <= cents + delta_cents <= i64::MAX,
            i64::MIN <= old(self)@.cash(credit) + cents <= i64::MAX,
            i64::MIN <= old(self)@.cash(credit) + cents + delta_cents <= i64::MAX,
        ensures
            final(self).inv(),
            final(self)@ == old(self)@.with_cash(
                debit,
                (old(self)@.cash(debit) - cents) as i64,
            ).with_cash(credit, (old(self)@.cash(credit) + cents + delta_cents) as i64).record(
                draft(
                    PostingKind::Transfer,
                    debit,
                    credit,
                    cents,
                    (cents + delta_cents) as i64,
                    only_good(),
                    0,
                    0,
                ),
            ),
            p == final(self)@.journal.last(),
    {
        let debit_slot = self.resolve(debit).unwrap();
        let credit_slot = self.resolve(credit).unwrap();
        let paid = self.cash_at(debit_slot) - cents;
        let received = self.cash_at(credit_slot) + cents + delta_cents;
        self.write_cash(debit_slot, paid);
        self.write_cash(credit_slot, received);
        self.record(
            Posting {
                seq: 0,
                kind: PostingKind::Transfer,
                debit,
                credit,
                debit_cents: cents,
                credit_cents: cents + delta_cents,
                good: GoodId(0),
                units_out: 0,
                units_in: 0,
                cash_residual_cents: 0,
                goods_residual_units: 0,
            },
        );
        self.journal[self.journal.len() - 1]
    }

    /// Adjust `who`'s cash by `delta_cents` and record nothing: a fault the
    /// journal cannot localise.
    pub fn corrupt_silent_cash(&mut self, who: Account, delta_cents: i64)
        requires
            old(self).inv(),
            old(self)@.resolves(who),
            i64::MIN <= old(self)@.cash(who) + delta_cents <= i64::MAX,
        ensures
            final(self).inv(),
            final(self)@ == old(self)@.with_cash(who, (old(self)@.cash(who) + delta_cents) as i64),
    {
        let slot = self.resolve(who).unwrap();
        let adjusted = self.cash_at(slot) + delta_cents;
        self.write_cash(slot, adjusted);
    }

    /// Adjust `who`'s stock of `good` by `delta_units` and record nothing: a
    /// goods fault the journal cannot localise.
    pub fn corrupt_silent_stock(&mut self, who: Account, good: GoodId, delta_units: i64)
        requires
            old(self).inv(),
            old(self)@.resolves(who),
            BooksView::carries(good),
            i64::MIN <= old(self)@.stock(who) + delta_units <= i64::MAX,
        ensures
            final(self).inv(),
            final(self)@ == old(self)@.with_stock(who, (old(self)@.stock(who) + delta_units) as i64),
    {
        let slot = self.resolve(who).unwrap();
        let adjusted = self.stock_at(slot) + delta_units;
        self.write_stock(slot, adjusted);
    }

    /// Move `cents` from `from` to `to` by direct writes, with no overdraft
    /// check and no posting: the total stays intact while `from` may end
    /// below zero.
    pub fn corrupt_conserving_deficit(&mut self, from: Account, to: Account, cents: i64)
        requires
            old(self).inv(),
            from != to,
            old(self)@.resolves(from),
            old(self)@.resolves(to),
            i64::MIN <= old(self)@.cash(from) - cents <= i64::MAX,
            i64::MIN <= old(self)@.cash(to) + cents <= i64::MAX,
        ensures
            final(self).inv(),
            final(self)@ == old(self)@.with_cash(from, (old(self)@.cash(from) - cents) as i64).with_cash(
                to,
                (old(self)@.cash(to) + cents) as i64,
            ),
    {
        let from_slot = self.resolve(from).unwrap();
        let to_slot = self.resolve(to).unwrap();
        let drained = self.cash_at(from_slot) - cents;
        let filled = self.cash_at(to_slot) + cents;
        self.write_cash(from_slot, drained);
        self.write_cash(to_slot, filled);
    }

    /// Append `draft` to the journal without touching any balance, stamped
    /// by the recorder, and return it as stamped.
    pub fn corrupt_appended_posting(&mut self, draft: Posting) -> (p: Posting)
        requires
            old(self).inv(),
        ensures
            final(self).inv(),
            final(self)@ == old(self)@.record(draft),
            p == final(self)@.journal.last(),
    {
        self.record(draft);
        self.journal[self.journal.len() - 1]
    }

    /// Append `draft`, stamping its sequence number and the two running
    /// residuals. Both residual updates read only this posting's legs.
    fn record(&mut self, draft: Posting)
        requires
            old(self).inv(),
        ensures
            final(self)@ == old(self)@.record(draft),
    {
        let cash_delta = saturating_sub_i64(draft.credit_cents, draft.debit_cents);
        let produced_added: i64 = match draft.kind {
            PostingKind::Produce | PostingKind::Endow => draft.units_in,
            _ => 0,
        };
        let consumed_added: i64 = match draft.kind {
            PostingKind::Consume => draft.units_out,
            _ => 0,
        };
        let goods_delta = saturating_sub_i64(
            saturating_add_i64(
                saturating_sub_i64(produced_added, consumed_added),
                draft.units_out,
            ),
            draft.units_in,
        );
        self.cash_residual_cents = saturating_add_i64(self.cash_residual_cents, cash_delta);
        self.goods_residual_units = saturating_add_i64(self.goods_residual_units, goods_delta);
        match draft.kind {
            PostingKind::Transfer | PostingKind::Exchange => {
                self.transactions_this_tick = saturating_increment_u32(
                    self.transactions_this_tick,
                );
            },
            _ => {},
        }
        self.journal.push(
            Posting {
                seq: self.next_seq,
                cash_residual_cents: self.cash_residual_cents,
                goods_residual_units: self.goods_residual_units,
                ..draft
            },
        );
        self.next_seq = saturating_increment_u32(self.next_seq);
        assert(self@ == old(self)@.record(draft));
    }
}


/// Writing one resolving account's cash moves the money total by exactly the
/// change, touches no other account and no stock.
pub proof fn lemma_with_cash(v: BooksView, a: Account, x: i64)
    requires
        v.wf(),
        v.resolves(a),
    ensures
        v.with_cash(a, x).wf(),
        v.with_cash(a, x).total_money() == v.total_money() - v.cash(a) + x,
        v.with_cash(a, x).cash(a) == x,
        v.with_cash(a, x).stocks() == v.stocks(),
        v.with_cash(a, x).generations == v.generations,
        v.with_cash(a, x).household_cash.len() == v.household_cash.len(),
        forall|b: Account| v.resolves(b) && b != a ==> #[trigger] v.with_cash(a, x).cash(b) == v.cash(b),
        forall|b: Account| #[trigger] v.with_cash(a, x).stock(b) == v.stock(b),
{
    let w = v.with_cash(a, x);
    match a {
        Account::Household(h) => {
            lemma_sum_concat(v.household_cash, v.firm_cash);
            lemma_sum_concat(w.household_cash, w.firm_cash);
            lemma_sum_update(v.household_cash, h.0 as int, x);
        },
        Account::Firm(f) => {
            lemma_sum_concat(v.household_cash, v.firm_cash);
            lemma_sum_concat(w.household_cash, w.firm_cash);
            lemma_sum_update(v.firm_cash, f.slot.0 as int, x);
        },
    }
    assert(w.stocks() =~= v.stocks());
}

/// Writing one resolving account's stock moves the unit total by exactly the
/// change and touches no cash.
pub proof fn lemma_with_stock(v: BooksView, a: Account, x: i64)
    requires
        v.wf(),
        v.resolves(a),
    ensures
        v.with_stock(a, x).wf(),
        v.with_stock(a, x).total_stock() == v.total_stock() - v.stock(a) + x,
        v.with_stock(a, x).stock(a) == x,
        v.with_stock(a, x).balances() == v.balances(),
        v.with_stock(a, x).generations == v.generations,
        v.with_stock(a, x).household_cash.len() == v.household_cash.len(),
        forall|b: Account| v.resolves(b) && b != a ==> #[trigger] v.with_stock(a, x).stock(b) == v.stock(b),
        forall|b: Account| #[trigger] v.with_stock(a, x).cash(b) == v.cash(b),
{
    let w = v.with_stock(a, x);
    match a {
        Account::Household(h) => {
            lemma_sum_concat(v.household_stock, v.firm_stock);
            lemma_sum_concat(w.household_stock, w.firm_stock);
            lemma_sum_update(v.household_stock, h.0 as int, x);
        },
        Account::Firm(f) => {
            lemma_sum_concat(v.household_stock, v.firm_stock);
            lemma_sum_concat(w.household_stock, w.firm_stock);
            lemma_sum_update(v.firm_stock, f.slot.0 as int, x);
        },
    }
    assert(w.balances() =~= v.balances());
}

impl BooksView {
    /// The two sources agree: the journal's cash residual is the balances'
    /// total less the opening stock, and the goods residual is the goods
    /// identity recomputed from the fields.
    pub open spec fn agrees(self) -> bool {
        &&& self.cash_residual == self.total_money() - self.opening
        &&& self.goods_residual == self.goods_identity()
    }

    /// What every completed operation keeps of `self` in `after`: the
    /// opening stock, the money total, the goods identity and both running
    /// residuals, and with them the agreement of the two sources.
    pub open spec fn keeps_conserved(self, after: BooksView) -> bool {
        &&& after.wf()
        &&& after.opening == self.opening
        &&& after.total_money() == self.total_money()
        &&& after.goods_identity() == self.goods_identity()
        &&& after.cash_residual == self.cash_residual
        &&& after.goods_residual == self.goods_residual
        &&& (self.agrees() ==> after.agrees())
    }
}

/// Recording a well-formed posting, one whose cash legs agree and whose
/// unit legs match what its kind adds to the produced and consumed totals,
/// leaves both residuals where they were and every balance and stock alone.
pub proof fn lemma_record_balanced(v: BooksView, d: Posting)
    requires
        d.debit_cents == d.credit_cents,
        BooksView::goods_delta(d) == 0,
    ensures
        v.record(d).cash_residual == v.cash_residual,
        v.record(d).goods_residual == v.goods_residual,
        v.record(d).balances() == v.balances(),
        v.record(d).stocks() == v.stocks(),
        v.record(d).total_money() == v.total_money(),
        v.record(d).total_stock() == v.total_stock(),
        v.record(d).produced == v.produced,
        v.record(d).consumed == v.consumed,
        v.record(d).opening == v.opening,
        v.record(d).generations == v.generations,
        v.wf() ==> v.record(d).wf(),
        v.record(d).journal == v.journal.push(v.record(d).journal.last()),
{
}

/// A completed transfer moves exactly the amount out of the payer and into
/// the payee, keeps the money total, the goods identity and both residuals,
/// and counts one more transaction.
pub proof fn law_transfer_conserves(v: BooksView, from: Account, to: Account, amount: i64)
    requires
        v.wf(),
        v.transfer_refusal(from, to, amount) is None,
    ensures
        v.keeps_conserved(v.after_transfer(from, to, amount)),
        v.after_transfer(from, to, amount).cash(from) == v.cash(from) - amount,
        v.after_transfer(from, to, amount).cash(to) == v.cash(to) + amount,
        v.after_transfer(from, to, amount).total_stock() == v.total_stock(),
        v.after_transfer(from, to, amount).transactions == clamp_u32(v.transactions + 1),
        amount > 0,
{
    let a = v.with_cash(from, (v.cash(from) - amount) as i64);
    lemma_with_cash(v, from, (v.cash(from) - amount) as i64);
    lemma_with_cash(a, to, (v.cash(to) + amount) as i64);
    let b = a.with_cash(to, (v.cash(to) + amount) as i64);
    let d = draft(PostingKind::Transfer, from, to, amount, amount, only_good(), 0, 0);
    lemma_record_balanced(b, d);
}

/// A completed production raises the holder's stock and the produced total
/// by the units, and keeps everything conserved. Not a transaction.
pub proof fn law_produce_conserves(v: BooksView, who: Account, good: GoodId, units: i64)
    requires
        v.wf(),
        v.produce_refusal(who, good, units) is None,
        v.stock(who) + units <= i64::MAX,
        v.produced + units <= i64::MAX,
    ensures
        v.keeps_conserved(v.after_produce(who, good, units)),
        v.after_produce(who, good, units).stock(who) == v.stock(who) + units,
        v.after_produce(who, good, units).produced == v.produced + units,
        v.after_produce(who, good, units).total_stock() == v.total_stock() + units,
        v.after_produce(who, good, units).transactions == v.transactions,
{
    lemma_with_stock(v, who, (v.stock(who) + units) as i64);
    let a = BooksView { produced: (v.produced + units) as i64, ..v.with_stock(who, (v.stock(who) + units) as i64) };
    assert(a.stocks() == v.with_stock(who, (v.stock(who) + units) as i64).stocks());
    assert(a.balances() == v.with_stock(who, (v.stock(who) + units) as i64).balances());
    let d = draft(PostingKind::Produce, who, who, 0, 0, good, 0, units);
    lemma_record_balanced(a, d);
}

/// A completed consumption lowers the holder's stock and raises the
/// consumed total by the units, and keeps everything conserved. Not a
/// transaction.
pub proof fn law_consume_conserves(v: BooksView, who: Account, good: GoodId, units: i64)
    requires
        v.wf(),
        v.consume_refusal(who, good, units) is None,
        v.consumed + units <= i64::MAX,
    ensures
        v.keeps_conserved(v.after_consume(who, good, units)),
        v.after_consume(who, good, units).stock(who) == v.stock(who) - units,
        v.after_consume(who, good, units).consumed == v.consumed + units,
        v.after_consume(who, good, units).total_stock() == v.total_stock() - units,
        v.after_consume(who, good, units).stock(who) >= 0,
        v.after_consume(who, good, units).transactions == v.transactions,
{
    lemma_with_stock(v, who, (v.stock(who) - units) as i64);
    let a = BooksView { consumed: (v.consumed + units) as i64, ..v.with_stock(who, (v.stock(who) - units) as i64) };
    assert(a.stocks() == v.with_stock(who, (v.stock(who) - units) as i64).stocks());
    assert(a.balances() == v.with_stock(who, (v.stock(who) - units) as i64).balances());
    let d = draft(PostingKind::Consume, who, who, 0, 0, good, units, 0);
    lemma_record_balanced(a, d);
}

/// A completed exchange moves the amount from buyer to seller and the units
/// from seller to buyer in one posting, keeps both totals and everything
/// conserved, and counts one more transaction.
pub proof fn law_exchange_conserves(
    v: BooksView,
    buyer: Account,
    seller: Account,
    good: GoodId,
    units: i64,
    amount: i64,
)
    requires
        v.wf(),
        v.exchange_refusal(buyer, seller, good, units, amount) is None,
        v.stock(buyer) + units <= i64::MAX,
    ensures
        v.keeps_conserved(v.after_exchange(buyer, seller, good, units, amount)),
        v.after_exchange(buyer, seller, good, units, amount).cash(buyer) == v.cash(buyer) - amount,
        v.after_exchange(buyer, seller, good, units, amount).cash(seller) == v.cash(seller) + amount,
        v.after_exchange(buyer, seller, good, units, amount).stock(seller) == v.stock(seller) - units,
        v.after_exchange(buyer, seller, good, units, amount).stock(buyer) == v.stock(buyer) + units,
        v.after_exchange(buyer, seller, good, units, amount).total_stock() == v.total_stock(),
        v.after_exchange(buyer, seller, good, units, amount).transactions == clamp_u32(
            v.transactions + 1,
        ),
        amount > 0 && units > 0,
{
    let a = v.with_cash(buyer, (v.cash(buyer) - amount) as i64);
    lemma_with_cash(v, buyer, (v.cash(buyer) - amount) as i64);
    let b = a.with_cash(seller, (v.cash(seller) + amount) as i64);
    lemma_with_cash(a, seller, (v.cash(seller) + amount) as i64);
    let c = b.with_stock(seller, (v.stock(seller) - units) as i64);
    lemma_with_stock(b, seller, (v.stock(seller) - units) as i64);
    let e = c.with_stock(buyer, (v.stock(buyer) + units) as i64);
    lemma_with_stock(c, buyer, (v.stock(buyer) + units) as i64);
    let d = draft(PostingKind::Exchange, buyer, seller, amount, amount, good, units, units);
    lemma_record_balanced(e, d);
}

/// Closing a tick touches no balance, no stock, no total and neither
/// residual.
pub proof fn law_end_of_tick_keeps_the_books(v: BooksView)
    requires
        v.wf(),
    ensures
        v.keeps_conserved(v.after_tick()),
        v.after_tick().balances() == v.balances(),
        v.after_tick().stocks() == v.stocks(),
        v.after_tick().journal.len() == 0,
        v.after_tick().transactions == 0,
{
}


/// A run of equal numbers sums to their count times the number.
proof fn lemma_sum_constant(n: nat, c: i64)
    ensures
        sum_ints(Seq::new(n, |i: int| c)) == n * c,
    decreases n,
{
    let s = Seq::new(n, |i: int| c);
    if n == 0 {
        assert(n * c == 0) by (nonlinear_arith)
            requires
                n == 0,
        ;
    } else {
        let t = Seq::new((n - 1) as nat, |i: int| c);
        lemma_sum_constant((n - 1) as nat, c);
        assert(s.drop_last() =~= t);
        assert(sum_ints(s) == sum_ints(t) + c);
        assert((n - 1) * c + c == n * c) by (nonlinear_arith);
    }
}

/// Adding a non-negative step saturates only at the top: the result is the
/// exact total, or the largest value when the total passes it.
/// Saturating additions of a constant step land where the plain sum,
/// clamped once to the signed 64-bit range, does: the running total moves
/// one way only, so once it meets a bound it stays there.
pub proof fn lemma_saturating_repeat_clamps(start: int, step: int, times: nat)
    requires
        i64::MIN <= start <= i64::MAX,
    ensures
        saturating_repeat(start, step, times) == clamp_i64(start + times * step),
    decreases times,
{
    if times == 0 {
        assert(times * step == 0) by (nonlinear_arith)
            requires
                times == 0,
        ;
    } else {
        let t = (times - 1) as nat;
        lemma_saturating_repeat_clamps(start, step, t);
        assert(start + t * step + step == start + times * step) by (nonlinear_arith)
            requires
                t == times - 1,
        ;
        assert(step >= 0 ==> t * step >= 0) by (nonlinear_arith)
            requires
                t >= 0,
        ;
        assert(step < 0 ==> t * step <= 0) by (nonlinear_arith)
            requires
                t >= 0,
        ;
    }
}

/// Books built from parameters with non-negative liquidity hold exactly the
/// configured money stock, satisfy the goods identity, and open with the two
/// sources in agreement.
pub proof fn law_construction_conserves(params: Params)
    requires
        params.sim.firms <= u16::MAX,
        i64::MIN <= params.sim.households * params.household.initial_liquidity_cents
            - params.money.total_money_cents <= i64::MAX,
        construction_refusal(params) is None,
    ensures
        opening_view(params).wf(),
        opening_view(params).total_money() == params.money.total_money_cents,
        opening_view(params).goods_identity() == 0,
        opening_view(params).agrees(),
{
    let v = opening_view(params);
    let h = params.sim.households as nat;
    let f = params.sim.firms as nat;
    let hl = params.household.initial_liquidity_cents;
    let fl = params.firm.initial_liquidity_cents;
    let u = params.firm.initial_inventory_units;
    let opening = params.money.total_money_cents;
    lemma_sum_concat(v.household_cash, v.firm_cash);
    lemma_sum_concat(v.household_stock, v.firm_stock);
    lemma_sum_constant(h, hl);
    lemma_sum_constant(f, fl);
    lemma_sum_constant(h, 0);
    lemma_sum_constant(f, u);
    lemma_saturating_repeat_clamps(-opening, hl as int, h);
    let inner = saturating_repeat(-opening, hl as int, h);
    lemma_saturating_repeat_in_range(-opening, hl as int, h);
    lemma_saturating_repeat_clamps(inner, fl as int, f);
    assert(h * 0 == 0) by (nonlinear_arith);
}


/// The walk position `i` names a resolving account whose cash and stock are
/// the balance and the stock holding at that position.
pub proof fn lemma_account_at(v: BooksView, i: int)
    requires
        v.wf(),
        0 <= i < v.balances().len(),
    ensures
        v.resolves(v.account_at(i)),
        v.cash(v.account_at(i)) == v.balances()[i],
        v.stock(v.account_at(i)) == v.stocks()[i],
        v.stocks().len() == v.balances().len(),
{
}
} // verus!
