//! Integer money, in cents.
//!
//! `Money` wraps a private `i64` count of cents: money cannot be conjured
//! outside this module, only moved. The single constructor `from_cents` is
//! used at configuration ingestion and initial endowment.
//!
//! Two halves of the arithmetic API:
//!
//! * the operators (`+`, `-`, unary `-`, `add_assign`, `sub_assign`, `sum`)
//!   are total only on amounts whose result stays in range; their contracts
//!   require that, so no verified caller can reach an overflow;
//! * the named `checked_add`, `checked_sub` and `try_scale` return a
//!   [`MoneyOverflow`] naming the operation instead.

use vstd::prelude::*;
use vstd::std_specs::ops::{AddSpec, SubSpec};
use vstd::std_specs::cmp::PartialOrdSpec;
use core::cmp::Ordering;

verus! {

/// An amount of money, in integer cents.
#[derive(Debug, Clone, Copy, PartialEq, Eq, Ord, Hash, Default)]
pub struct Money(i64);

/// A money operation whose result does not fit the money range.
///
/// Names the two operands and the operator, so a report says exactly which
/// computation overflowed.
#[derive(Debug, Clone, Copy, PartialEq, Eq)]
pub struct MoneyOverflow {
    pub lhs: i64,
    pub op: &'static str,
    pub rhs: i64,
}

/// Whether an integer fits the money range.
pub open spec fn in_money_range(x: int) -> bool {
    i64::MIN <= x <= i64::MAX
}

/// The sum of a sequence of amounts, in cents, as a mathematical integer.
pub open spec fn sum_cents(s: Seq<Money>) -> int
    decreases s.len(),
{
    if s.len() == 0 {
        0
    } else {
        sum_cents(s.drop_last()) + s.last().spec_cents()
    }
}

/// Whether every running total of a left-to-right sum of `s` fits the money
/// range — exactly the sequences a checked fold adds up without overflowing.
pub open spec fn prefix_sums_fit(s: Seq<Money>) -> bool {
    forall|k: int| 0 <= k <= s.len() ==> #[trigger] in_money_range(sum_cents(s.take(k)))
}

/// Rust's `/` on `i128`, toward zero, for a positive or negative divisor.
pub open spec fn quot_toward_zero(a: int, b: int) -> int
    recommends
        b != 0,
{
    let q = (if a >= 0 { a } else { -a }) / (if b >= 0 { b } else { -b });
    if (a >= 0) == (b >= 0) {
        q
    } else {
        -q
    }
}

impl Money {
    /// The amount, in cents, as a mathematical integer.
    pub closed spec fn spec_cents(self) -> int {
        self.0 as int
    }

    /// The amount holding exactly `cents`.
    pub closed spec fn spec_from_cents(cents: i64) -> Money {
        Money(cents)
    }

    /// `ZERO` holds no cents, and building from cents gives back those cents.
    pub broadcast proof fn lemma_from_cents(cents: i64)
        ensures
            #[trigger] Money::spec_from_cents(cents).spec_cents() == cents,
    {
    }

    /// Every amount lies in the 64-bit signed range.
    pub broadcast proof fn lemma_cents_in_range(a: Money)
        ensures
            i64::MIN <= #[trigger] a.spec_cents() <= i64::MAX,
    {
    }

    /// The only constructor. Configuration ingestion and endowment only.
    pub fn from_cents(cents: i64) -> (m: Money)
        ensures
            m.spec_cents() == cents,
            m == Money::spec_from_cents(cents),
    {
        Money(cents)
    }

    /// Zero cents.
    pub fn zero() -> (m: Money)
        ensures
            m.spec_cents() == 0,
    {
        Money(0)
    }

    /// The amount, in cents.
    pub fn cents(self) -> (c: i64)
        ensures
            c == self.spec_cents(),
    {
        self.0
    }

    /// `self + other`, or the named overflow when the sum leaves the range.
    pub fn checked_add(self, other: Money) -> (r: Result<Money, MoneyOverflow>)
        ensures
            in_money_range(self.spec_cents() + other.spec_cents()) ==> (r matches Ok(m)
                && m.spec_cents() == self.spec_cents() + other.spec_cents()),
            !in_money_range(self.spec_cents() + other.spec_cents()) ==> (r matches Err(e) && e.lhs
                == self.spec_cents() && e.op == "+" && e.rhs == other.spec_cents()),
    {
        match self.0.checked_add(other.0) {
            Some(c) => Ok(Money(c)),
            None => Err(MoneyOverflow { lhs: self.0, op: "+", rhs: other.0 }),
        }
    }

    /// `self - other`, or the named overflow when the difference leaves the
    /// range.
    pub fn checked_sub(self, other: Money) -> (r: Result<Money, MoneyOverflow>)
        ensures
            in_money_range(self.spec_cents() - other.spec_cents()) ==> (r matches Ok(m)
                && m.spec_cents() == self.spec_cents() - other.spec_cents()),
            !in_money_range(self.spec_cents() - other.spec_cents()) ==> (r matches Err(e) && e.lhs
                == self.spec_cents() && e.op == "-" && e.rhs == other.spec_cents()),
    {
        match self.0.checked_sub(other.0) {
            Some(c) => Ok(Money(c)),
            None => Err(MoneyOverflow { lhs: self.0, op: "-", rhs: other.0 }),
        }
    }

    /// `self * numerator / denominator`, truncated toward zero, with the
    /// intermediate product taken exactly.
    ///
    /// Refused with the named overflow when the denominator is zero (`/`) or
    /// when the scaled amount leaves the money range (`*`).
    pub fn try_scale(self, numerator: i64, denominator: i64) -> (r: Result<Money, MoneyOverflow>)
        ensures
            denominator == 0 ==> (r matches Err(e) && e.lhs == self.spec_cents() && e.op == "/"
                && e.rhs == 0),
            denominator != 0 && in_money_range(
                quot_toward_zero(self.spec_cents() * numerator, denominator as int),
            ) ==> (r matches Ok(m) && m.spec_cents() == quot_toward_zero(
                self.spec_cents() * numerator,
                denominator as int,
            )),
            denominator != 0 && !in_money_range(
                quot_toward_zero(self.spec_cents() * numerator, denominator as int),
            ) ==> (r matches Err(e) && e.lhs == self.spec_cents() && e.op == "*" && e.rhs
                == numerator),
    {
        if denominator == 0 {
            return Err(MoneyOverflow { lhs: self.0, op: "/", rhs: 0 });
        }
        let a = self.0 as i128;
        let n = numerator as i128;
        let d = denominator as i128;
        assert(-0x4000_0000_0000_0000_0000_0000_0000_0000 <= a * n
            <= 0x4000_0000_0000_0000_0000_0000_0000_0000) by (nonlinear_arith)
            requires
                i64::MIN <= a <= i64::MAX,
                i64::MIN <= n <= i64::MAX,
        ;
        let product = a * n;
        let magnitude: i128 = if product >= 0 {
            product
        } else {
            -product
        };
        let divisor: i128 = if d >= 0 {
            d
        } else {
            -d
        };
        let q = magnitude / divisor;
        assert(0 <= q <= magnitude) by (nonlinear_arith)
            requires
                q == magnitude / divisor,
                divisor >= 1,
                magnitude >= 0,
        ;
        let scaled: i128 = if (product >= 0) == (d >= 0) {
            q
        } else {
            -q
        };
        if scaled < i64::MIN as i128 || scaled > i64::MAX as i128 {
            Err(MoneyOverflow { lhs: self.0, op: "*", rhs: numerator })
        } else {
            Ok(Money(scaled as i64))
        }
    }

    /// `self` split into `n` parts that sum exactly to `self`.
    ///
    /// Every part is the truncated share; the remainder is handed out one
    /// cent at a time to the first parts (a negative cent for a negative
    /// amount), so no two parts differ by more than one cent.
    pub fn split(self, n: u32) -> (parts: Vec<Money>)
        requires
            n >= 1,
        ensures
            parts.len() == n,
            sum_cents(parts@) == self.spec_cents(),
            forall|i: int|
                0 <= i < n ==> #[trigger] parts@[i].spec_cents() == split_part(
                    self.spec_cents(),
                    n as int,
                    i,
                ),
    {
        let whole = self.0 as i128;
        let count = n as i128;
        let magnitude: i128 = if whole >= 0 {
            whole
        } else {
            -whole
        };
        let base_magnitude = magnitude / count;
        let remainder = magnitude % count;
        assert(0 <= base_magnitude <= magnitude) by (nonlinear_arith)
            requires
                base_magnitude == magnitude / count,
                count >= 1,
                magnitude >= 0,
        ;
        let sign: i128 = if whole >= 0 {
            1
        } else {
            -1
        };
        let mut parts: Vec<Money> = Vec::new();
        let mut i: u32 = 0;
        let ghost total = 0int;
        while i < n
            invariant
                i <= n,
                count == n,
                whole == self.spec_cents(),
                magnitude == (if whole >= 0 { whole as int } else { -whole }),
                base_magnitude == magnitude / count,
                remainder == magnitude % count,
                sign == (if whole >= 0 { 1int } else { -1int }),
                0 <= base_magnitude <= magnitude <= 0x8000_0000_0000_0000,
                parts.len() == i,
                forall|j: int|
                    0 <= j < i ==> #[trigger] parts@[j].spec_cents() == split_part(
                        self.spec_cents(),
                        n as int,
                        j,
                    ),
                sum_cents(parts@) == sign * (base_magnitude * i + (if (i as int) < remainder {
                    i as int
                } else {
                    remainder as int
                })),
            decreases n - i,
        {
            let extra: i128 = if (i as i128) < remainder {
                1
            } else {
                0
            };
            proof {
                lemma_split_part_fits(self.spec_cents(), n as int, i as int);
            }
            let part = sign * (base_magnitude + extra);
            let ghost before = parts@;
            parts.push(Money(part as i64));
            proof {
                assert(parts@.drop_last() == before);
                assert(part == split_part(self.spec_cents(), n as int, i as int));
                assert(sum_cents(parts@) == sum_cents(before) + part);
                assert(sign * (base_magnitude * (i + 1) + (if ((i + 1) as int) < remainder {
                    (i + 1) as int
                } else {
                    remainder as int
                })) == sign * (base_magnitude * i + (if (i as int) < remainder {
                    i as int
                } else {
                    remainder as int
                })) + part) by (nonlinear_arith)
                    requires
                        part == sign * (base_magnitude + extra),
                        extra == (if (i as int) < remainder { 1int } else { 0int }),
                        remainder >= 0,
                ;
            }
            i = i + 1;
        }
        proof {
            lemma_split_total(self.spec_cents(), n as int);
        }
        parts
    }
}

/// Part `i` of `amount` split `n` ways: the truncated share plus one cent (of
/// the amount's sign) for each of the first `|amount| % n` parts.
pub open spec fn split_part(amount: int, n: int, i: int) -> int
    recommends
        n >= 1,
{
    let magnitude = if amount >= 0 { amount } else { -amount };
    let share = magnitude / n + (if i < magnitude % n { 1int } else { 0int });
    if amount >= 0 {
        share
    } else {
        -share
    }
}

proof fn lemma_split_part_fits(amount: int, n: int, i: int)
    requires
        i64::MIN <= amount <= i64::MAX,
        n >= 1,
        0 <= i < n,
    ensures
        in_money_range(split_part(amount, n, i)),
{
    let magnitude = if amount >= 0 { amount } else { -amount };
    let q = magnitude / n;
    let r = magnitude % n;
    assert(q * n + r == magnitude && 0 <= r < n && q >= 0) by (nonlinear_arith)
        requires
            q == magnitude / n,
            r == magnitude % n,
            n >= 1,
            magnitude >= 0,
    ;
    let extra = if i < r { 1int } else { 0int };
    if n == 1 {
        assert(q == magnitude && r == 0 && extra == 0);
    } else {
        assert(q * 2 <= magnitude) by (nonlinear_arith)
            requires
                q * n + r == magnitude,
                n >= 2,
                r >= 0,
                q >= 0,
        ;
    }
    assert(0 <= q + extra <= 0x7fff_ffff_ffff_ffff || (n == 1 && q + extra == magnitude));
    if amount >= 0 {
        assert(split_part(amount, n, i) == q + extra);
    } else {
        assert(split_part(amount, n, i) == -(q + extra));
    }
}

proof fn lemma_split_total(amount: int, n: int)
    requires
        n >= 1,
    ensures
        ({
            let magnitude = if amount >= 0 { amount } else { -amount };
            let sign = if amount >= 0 { 1int } else { -1int };
            sign * (magnitude / n * n + (if n < magnitude % n { n } else { magnitude % n }))
                == amount
        }),
{
    let magnitude = if amount >= 0 { amount } else { -amount };
    let sign = if amount >= 0 { 1int } else { -1int };
    assert(magnitude / n * n + magnitude % n == magnitude && magnitude % n < n) by (nonlinear_arith)
        requires
            n >= 1,
            magnitude >= 0,
    ;
    assert(sign * magnitude == amount);
}

/// No two parts of one split differ by more than one cent.
pub proof fn law_split_parts_differ_by_at_most_one_cent(amount: int, n: int, i: int, j: int)
    requires
        n >= 1,
        0 <= i < n,
        0 <= j < n,
    ensures
        -1 <= split_part(amount, n, i) - split_part(amount, n, j) <= 1,
{
}

/// Taking an amount away and adding it back gives back the amount one
/// started from, whenever the difference fits the money range: the way back
/// cannot overflow.
pub proof fn law_subtract_then_add_round_trips(a: Money, b: Money)
    requires
        a.sub_req(b),
    ensures
        a.sub_spec(b).add_req(b),
        a.sub_spec(b).add_spec(b) == a,
{
}

/// The sum of `parts`, folded left to right through `+`: every running
/// total must fit the money range.
pub fn sum(parts: &[Money]) -> (total: Money)
    requires
        prefix_sums_fit(parts@),
    ensures
        total.spec_cents() == sum_cents(parts@),
{
    let mut total: i64 = 0;
    let mut i: usize = 0;
    while i < parts.len()
        invariant
            i <= parts.len(),
            prefix_sums_fit(parts@),
            total == sum_cents(parts@.take(i as int)),
        decreases parts.len() - i,
    {
        assert(parts@.take(i + 1).drop_last() == parts@.take(i as int));
        assert(in_money_range(sum_cents(parts@.take(i + 1))));
        total = total + parts[i].0;
        i = i + 1;
    }
    assert(parts@.take(parts.len() as int) == parts@);
    Money(total)
}

impl Money {
    /// `self + other`. The sum must fit the money range.
    pub fn plus(self, other: Money) -> (r: Money)
        requires
            in_money_range(self.spec_cents() + other.spec_cents()),
        ensures
            r.spec_cents() == self.spec_cents() + other.spec_cents(),
    {
        Money(self.0 + other.0)
    }

    /// `self - other`. The difference must fit the money range.
    pub fn minus(self, other: Money) -> (r: Money)
        requires
            in_money_range(self.spec_cents() - other.spec_cents()),
        ensures
            r.spec_cents() == self.spec_cents() - other.spec_cents(),
    {
        Money(self.0 - other.0)
    }

    /// `-self`. The negation must fit the money range.
    pub fn negated(self) -> (r: Money)
        requires
            in_money_range(-self.spec_cents()),
        ensures
            r.spec_cents() == -self.spec_cents(),
    {
        Money(-self.0)
    }

    /// `self += other`. The sum must fit the money range.
    pub fn add_assign(&mut self, other: Money)
        requires
            in_money_range(old(self).spec_cents() + other.spec_cents()),
        ensures
            final(self).spec_cents() == old(self).spec_cents() + other.spec_cents(),
    {
        self.0 = self.0 + other.0;
    }

    /// `self -= other`. The difference must fit the money range.
    pub fn sub_assign(&mut self, other: Money)
        requires
            in_money_range(old(self).spec_cents() - other.spec_cents()),
        ensures
            final(self).spec_cents() == old(self).spec_cents() - other.spec_cents(),
    {
        self.0 = self.0 - other.0;
    }
}


impl std::ops::Add for Money {
    type Output = Money;

    /// `self + other`; the sum must fit the money range.
    fn add(self, other: Money) -> (r: Money) {
        Money(self.0 + other.0)
    }
}

impl vstd::std_specs::ops::AddSpecImpl for Money {
    open spec fn obeys_add_spec() -> bool {
        true
    }

    open spec fn add_req(self, other: Money) -> bool {
        in_money_range(self.spec_cents() + other.spec_cents())
    }

    open spec fn add_spec(self, other: Money) -> Money {
        Money::spec_from_cents((self.spec_cents() + other.spec_cents()) as i64)
    }
}

impl std::ops::Sub for Money {
    type Output = Money;

    /// `self - other`; the difference must fit the money range.
    fn sub(self, other: Money) -> (r: Money) {
        Money(self.0 - other.0)
    }
}

impl vstd::std_specs::ops::SubSpecImpl for Money {
    open spec fn obeys_sub_spec() -> bool {
        true
    }

    open spec fn sub_req(self, other: Money) -> bool {
        in_money_range(self.spec_cents() - other.spec_cents())
    }

    open spec fn sub_spec(self, other: Money) -> Money {
        Money::spec_from_cents((self.spec_cents() - other.spec_cents()) as i64)
    }
}

impl std::ops::Neg for Money {
    type Output = Money;

    /// `-self`; the negation must fit the money range.
    fn neg(self) -> (r: Money) {
        Money(-self.0)
    }
}

impl vstd::std_specs::ops::NegSpecImpl for Money {
    open spec fn obeys_neg_spec() -> bool {
        true
    }

    open spec fn neg_req(self) -> bool {
        in_money_range(-self.spec_cents())
    }

    open spec fn neg_spec(self) -> Money {
        Money::spec_from_cents((-self.spec_cents()) as i64)
    }
}

impl PartialOrd for Money {
    /// Amounts order as their cents do.
    fn partial_cmp(&self, other: &Money) -> (r: Option<Ordering>) {
        if self.0 < other.0 {
            Some(Ordering::Less)
        } else if self.0 == other.0 {
            Some(Ordering::Equal)
        } else {
            Some(Ordering::Greater)
        }
    }
}

impl vstd::std_specs::cmp::PartialOrdSpecImpl for Money {
    open spec fn obeys_partial_cmp_spec() -> bool {
        true
    }

    open spec fn partial_cmp_spec(&self, other: &Money) -> Option<Ordering> {
        if self.spec_cents() < other.spec_cents() {
            Some(Ordering::Less)
        } else if self.spec_cents() == other.spec_cents() {
            Some(Ordering::Equal)
        } else {
            Some(Ordering::Greater)
        }
    }
}

/// Amounts compare exactly as their cents do: equal amounts hold equal
/// cents, and one amount is below another exactly when its cents are.
pub proof fn law_amounts_compare_as_their_cents(a: Money, b: Money)
    ensures
        (a == b) <==> (a.spec_cents() == b.spec_cents()),
        (a.partial_cmp_spec(&b) == Some(Ordering::Less)) <==> (a.spec_cents() < b.spec_cents()),
        (a.partial_cmp_spec(&b) == Some(Ordering::Greater)) <==> (a.spec_cents() > b.spec_cents()),
{
}

} // verus!
