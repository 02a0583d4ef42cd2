//! The integer scales the model works on, and the saturating integer
//! arithmetic its diagnostic quantities use.
//!
//! The model's one fractional computation lives outside this library: it is
//! floating point, which Verus does not reason about. Everything here is
//! integer arithmetic.

use vstd::prelude::*;

verus! {

/// Bits of the fractional power consumed by the fractional-power routine.
/// A committed constant, not a tunable.
pub const POW_FRAC_BITS: u32 = 40;

/// Parts per million. Probabilities and rates enter the model as integers on
/// this scale.
pub const PPM_SCALE: i64 = 1_000_000;

/// Thousandths. The second integer scale the model uses for rates.
pub const MILLI_SCALE: i64 = 1_000;

/// `x` clamped into the signed 64-bit range: what a saturating operation
/// returns for an exact result `x`.
pub open spec fn clamp_i64(x: int) -> int {
    if x > i64::MAX {
        i64::MAX as int
    } else if x < i64::MIN {
        i64::MIN as int
    } else {
        x
    }
}

/// `x` clamped to at most `u32::MAX`.
pub open spec fn clamp_u32(x: int) -> int {
    if x > u32::MAX {
        u32::MAX as int
    } else {
        x
    }
}

/// `a + b`, saturating at the bounds of the range.
pub fn saturating_add_i64(a: i64, b: i64) -> (r: i64)
    ensures
        r == clamp_i64(a + b),
{
    let wide = a as i128 + b as i128;
    if wide > i64::MAX as i128 {
        i64::MAX
    } else if wide < i64::MIN as i128 {
        i64::MIN
    } else {
        wide as i64
    }
}

/// `a - b`, saturating at the bounds of the range.
pub fn saturating_sub_i64(a: i64, b: i64) -> (r: i64)
    ensures
        r == clamp_i64(a - b),
{
    let wide = a as i128 - b as i128;
    if wide > i64::MAX as i128 {
        i64::MAX
    } else if wide < i64::MIN as i128 {
        i64::MIN
    } else {
        wide as i64
    }
}

/// `a + 1`, saturating at `u32::MAX`.
pub fn saturating_increment_u32(a: u32) -> (r: u32)
    ensures
        r == clamp_u32(a + 1),
{
    if a == u32::MAX {
        a
    } else {
        a + 1
    }
}

/// The sum of a sequence of integers.
pub open spec fn sum_ints(s: Seq<i64>) -> int
    decreases s.len(),
{
    if s.len() == 0 {
        0
    } else {
        sum_ints(s.drop_last()) + s.last()
    }
}

/// Whether every running total of a left-to-right sum of `s` fits the signed
/// 64-bit range: the sequences a checked fold adds up without overflowing.
pub open spec fn prefix_sums_fit(s: Seq<i64>) -> bool {
    forall|k: int|
        0 <= k <= s.len() ==> i64::MIN <= #[trigger] sum_ints(s.take(k)) <= i64::MAX
}

/// The sum of a concatenation is the sum of the parts.
pub proof fn lemma_sum_concat(a: Seq<i64>, b: Seq<i64>)
    ensures
        sum_ints(a + b) == sum_ints(a) + sum_ints(b),
    decreases b.len(),
{
    if b.len() == 0 {
        assert(a + b =~= a);
    } else {
        lemma_sum_concat(a, b.drop_last());
        assert((a + b).drop_last() =~= a + b.drop_last());
    }
}

/// Replacing one element moves the sum by exactly the difference.
pub proof fn lemma_sum_update(s: Seq<i64>, i: int, v: i64)
    requires
        0 <= i < s.len(),
    ensures
        sum_ints(s.update(i, v)) == sum_ints(s) - s[i] + v,
    decreases s.len(),
{
    if i == s.len() - 1 {
        assert(s.update(i, v).drop_last() =~= s.drop_last());
    } else {
        lemma_sum_update(s.drop_last(), i, v);
        assert(s.update(i, v).drop_last() =~= s.drop_last().update(i, v));
    }
}

/// A sequence of non-negative numbers whose total fits has every running
/// total fitting too.
pub proof fn lemma_nonnegative_prefix_fit(s: Seq<i64>)
    requires
        forall|i: int| 0 <= i < s.len() ==> s[i] >= 0,
        sum_ints(s) <= i64::MAX,
    ensures
        prefix_sums_fit(s),
        sum_ints(s) >= 0,
    decreases s.len(),
{
    if s.len() > 0 {
        lemma_nonnegative_prefix_fit(s.drop_last());
        assert forall|k: int| 0 <= k <= s.len() implies i64::MIN <= #[trigger] sum_ints(s.take(k))
            <= i64::MAX by {
            if k == s.len() {
                assert(s.take(k) =~= s);
            } else {
                assert(s.take(k) =~= s.drop_last().take(k));
            }
        }
    }
}

/// A sequence whose running totals all fit has a total that fits.
pub proof fn lemma_prefix_total(s: Seq<i64>)
    requires
        prefix_sums_fit(s),
    ensures
        i64::MIN <= sum_ints(s) <= i64::MAX,
{
    assert(s.take(s.len() as int) =~= s);
    assert(i64::MIN <= sum_ints(s.take(s.len() as int)) <= i64::MAX);
}

/// The sum of `s`, every running total of which must fit.
pub fn sum_i64(s: &[i64]) -> (total: i64)
    requires
        prefix_sums_fit(s@),
    ensures
        total == sum_ints(s@),
{
    let mut total: i64 = 0;
    let mut i: usize = 0;
    while i < s.len()
        invariant
            i <= s.len(),
            prefix_sums_fit(s@),
            total == sum_ints(s@.take(i as int)),
        decreases s.len() - i,
    {
        assert(s@.take(i + 1).drop_last() =~= s@.take(i as int));
        assert(i64::MIN <= sum_ints(s@.take(i + 1)) <= i64::MAX);
        total = total + s[i];
        i = i + 1;
    }
    assert(s@.take(s.len() as int) =~= s@);
    total
}

/// Add `x` to the running total `total` of the first `i` entries of `s`,
/// where `x` is entry `i`; `None` when that running total does not fit.
fn extend_total(total: i64, x: i64, Ghost(s): Ghost<Seq<i64>>, Ghost(i): Ghost<int>) -> (next: Option<i64>)
    requires
        0 <= i < s.len(),
        x == s[i],
        total == sum_ints(s.take(i)),
    ensures
        next matches Some(t) ==> t == sum_ints(s.take(i + 1)),
        next is None ==> !(i64::MIN <= sum_ints(s.take(i + 1)) <= i64::MAX),
{
    assert(s.take(i + 1).drop_last() =~= s.take(i));
    total.checked_add(x)
}

/// Whether every running total of a left-to-right sum over `a` then `b`
/// fits the signed 64-bit range.
pub fn running_totals_fit(a: &[i64], b: &[i64]) -> (fit: bool)
    ensures
        fit == prefix_sums_fit(a@ + b@),
{
    let ghost s = a@ + b@;
    let mut total: i64 = 0;
    assert(s.take(0) =~= Seq::<i64>::empty());
    let mut i: usize = 0;
    while i < a.len()
        invariant
            s == a@ + b@,
            i <= a.len(),
            total == sum_ints(s.take(i as int)),
            forall|k: int| 0 <= k <= i ==> i64::MIN <= #[trigger] sum_ints(s.take(k)) <= i64::MAX,
        decreases a.len() - i,
    {
        match extend_total(total, a[i], Ghost(s), Ghost(i as int)) {
            Some(next) => {
                total = next;
                i = i + 1;
            },
            None => {
                return false;
            },
        }
    }
    let mut j: usize = 0;
    while j < b.len()
        invariant
            s == a@ + b@,
            i == a.len(),
            j <= b.len(),
            total == sum_ints(s.take(i + j)),
            forall|k: int| 0 <= k <= i + j ==> i64::MIN <= #[trigger] sum_ints(s.take(k)) <= i64::MAX,
        decreases b.len() - j,
    {
        match extend_total(total, b[j], Ghost(s), Ghost(i + j)) {
            Some(next) => {
                total = next;
                j = j + 1;
            },
            None => {
                return false;
            },
        }
    }
    true
}

} // verus!
