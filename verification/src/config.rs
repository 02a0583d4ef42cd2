//! The parameter set, its domain checks, and the hash of the file it came
//! from.
//!
//! Parsing the parameter file is done outside this library; what it hands in
//! is a [`Params`] value. The one floating-point parameter,
//! `firm.initial_expected_demand`, is carried as the bit pattern of its
//! IEEE-754 double, so that its domain check — finite and strictly positive —
//! is a statement about integers.
//!
//! The configuration hash is taken over the raw file bytes, never over the
//! parsed parameters.

use vstd::prelude::*;
use sha2::{Digest, Sha256};
use crate::money::{Money, MoneyOverflow, in_money_range};
use crate::text::{decimal, empty_text, push_char, push_signed, push_text};

verus! {

/// Run shape: how long, how many agents, and the seed of record.
#[derive(Debug, Clone, Copy, PartialEq, Eq, Structural)]
pub struct Sim {
    /// Ticks to run. One tick is one day.
    pub ticks: u32,
    /// The seed of record.
    pub seed: u64,
    pub households: u32,
    pub firms: u32,
    /// Days per accounting month.
    pub month_days: u32,
}

/// The money stock, in integer cents.
#[derive(Debug, Clone, Copy, PartialEq, Eq, Structural)]
pub struct MoneySection {
    /// The fixed pile. Conserved to the cent for the whole run.
    pub total_money_cents: i64,
}

/// Household behaviour: consumption, supplier choice and job search.
#[derive(Debug, Clone, Copy, PartialEq, Eq, Structural)]
pub struct Household {
    pub consumption_exponent_ppm: u32,
    pub supplier_list_size: u32,
    pub supplier_switch_threshold_ppm: u32,
    pub price_search_prob_ppm: u32,
    pub rationing_search_prob_ppm: u32,
    pub firms_sampled_consumer: u32,
    pub firms_sampled_unemployed: u32,
    pub firms_sampled_employed: u32,
    pub employed_search_prob_ppm: u32,
    pub reservation_wage_decay_ppm: u32,
    pub reservation_wage_floor_cents: i64,
    pub initial_liquidity_cents: i64,
    pub initial_reservation_wage_cents: i64,
}

/// Firm behaviour: production, pricing, wage setting and dividends.
#[derive(Debug, Clone, Copy, PartialEq, Eq, Structural)]
pub struct Firm {
    pub productivity_units_per_worker_day: u32,
    pub demand_smoothing_ppm: u32,
    pub price_step_bound_ppm: u32,
    pub price_inaction_prob_ppm: u32,
    pub inventory_floor_ppm: u32,
    pub inventory_ceiling_ppm: u32,
    pub price_floor_over_mc_ppm: u32,
    pub price_ceiling_over_mc_ppm: u32,
    pub wage_step_bound_ppm: u32,
    pub full_staff_cycles_before_wage_cut: u32,
    pub dividend_buffer_ppm: u32,
    pub demand_satisfaction_ppm: u32,
    pub wage_floor_cents: i64,
    pub initial_price_cents: i64,
    pub initial_wage_cents: i64,
    pub initial_inventory_units: i64,
    /// The IEEE-754 bit pattern of the configured initial expected demand,
    /// the one fractional parameter.
    pub initial_expected_demand_bits: u64,
    pub initial_liquidity_cents: i64,
}

/// Exit and replacement of insolvent firms.
#[derive(Debug, Clone, Copy, PartialEq, Eq, Structural)]
pub struct Bankruptcy {
    pub entrant_size_ratio_ppm: u32,
    pub entrant_price_ratio_ppm: u32,
    pub incumbent_trim_per_tail: u32,
}

/// Who owns the firms.
#[derive(Debug, Clone, Copy, PartialEq, Eq, Structural)]
pub struct Ownership {
    pub firms_per_owner: u32,
}

/// Which invariant checks are active for this run.
#[derive(Debug, Clone, Copy, PartialEq, Eq, Structural)]
pub struct Invariants {
    /// The only switch for the liveness check.
    pub liveness_enabled: bool,
}

/// The whole parameter tree. Seven tables, every key required.
#[derive(Debug, Clone, Copy, PartialEq, Eq, Structural)]
pub struct Params {
    pub sim: Sim,
    pub money: MoneySection,
    pub household: Household,
    pub firm: Firm,
    pub bankruptcy: Bankruptcy,
    pub ownership: Ownership,
    pub invariants: Invariants,
}


/// A parameter that parsed but lies outside the domain its consumer
/// requires: which key, and why.
#[derive(Debug, Clone, PartialEq, Eq)]
pub struct DomainViolation {
    /// The dotted parameter path, e.g. `sim.ticks`.
    pub key: &'static str,
    /// What the domain is, and what goes wrong outside it.
    pub why: String,
}

/// Why the post-parse vetting of a parameter set failed.
#[derive(Debug, Clone, PartialEq, Eq)]
pub enum VetError {
    /// The money stock cannot survive being added to itself, the headroom
    /// the conservation audit's intermediate sums need.
    MoneyRange(MoneyOverflow),
    /// A parameter is outside its domain.
    Domain(DomainViolation),
}

/// Whether an IEEE-754 double's bit pattern is a finite, strictly positive
/// number: sign clear, exponent not all ones, and not positive zero.
pub open spec fn finite_positive_bits(bits: u64) -> bool {
    &&& bits >> 63u64 == 0
    &&& (bits >> 52u64) & 0x7ffu64 != 0x7ffu64
    &&& bits != 0
}

/// The message for a probability key above one.
pub open spec fn probability_why(p_ppm: u32) -> Seq<char> {
    "is "@ + decimal(p_ppm as int)
        + " ppm, above 1000000: Stream::coin_ppm can never reach it, so the coin is deterministically true with no diagnostic anywhere"@
}

/// The message for a sample wider than the firm pool.
pub open spec fn sample_why(k: u32, firms: u32) -> Seq<char> {
    "is "@ + decimal(k as int) + " but sim.firms is "@ + decimal(firms as int)
        + ": Stream::sample_k cannot draw more distinct firms than exist and would panic on the first tick"@
}

/// The first parameter outside its domain, as its key and the reason, in the
/// order validation checks them; `None` when every parameter is in domain.
pub open spec fn domain_fault(p: Params) -> Option<(Seq<char>, Seq<char>)> {
    if p.sim.ticks == 0 || p.sim.ticks > 0xff_ffff {
        Some((
            "sim.ticks"@,
            "must be in 1..=16777215: the sub-stream key's tick field is 24 bits wide, and a run that outgrows it panics in pack_stream_key mid-simulation rather than at start-up"@,
        ))
    } else if p.sim.households == 0 {
        Some((
            "sim.households"@,
            "must be non-zero: an empty population is a zero divisor, not an economy"@,
        ))
    } else if p.sim.households > 0xff_ffff {
        Some((
            "sim.households"@,
            "must be at most 16777215: the sub-stream key's agent field is 24 bits wide"@,
        ))
    } else if p.sim.firms == 0 {
        Some((
            "sim.firms"@,
            "must be non-zero: an economy with no producers has nothing to trade"@,
        ))
    } else if p.sim.firms > 0xffff {
        Some((
            "sim.firms"@,
            "must be at most 65535: FirmSlot is a u16, and a wider arena would alias two firms onto one identity"@,
        ))
    } else if p.sim.month_days == 0 {
        Some((
            "sim.month_days"@,
            "must be non-zero: it is the divisor of the monthly accounting cadence"@,
        ))
    } else if p.money.total_money_cents <= 0 {
        Some((
            "money.total_money_cents"@,
            "must be strictly positive: the core invariant is that money is a fixed pile that only ever changes hands, and an empty or negative pile is not one"@,
        ))
    } else if !finite_positive_bits(p.firm.initial_expected_demand_bits) {
        Some((
            "firm.initial_expected_demand"@,
            "must be finite and strictly positive (CAL-01): a non-finite or non-positive value reaches pow_frac, whose domain it is outside, and then the float/integer crossing, which turns it into a plausible zero"@,
        ))
    } else if p.household.consumption_exponent_ppm == 0 || p.household.consumption_exponent_ppm
        >= 1_000_000 {
        Some((
            "household.consumption_exponent_ppm"@,
            "must be in 1..1000000: pow_frac_det documents its domain as 0 < alpha < 1, and outside it the release build returns 1.0 or a truncated value rather than failing"@,
        ))
    } else if p.household.price_search_prob_ppm > 1_000_000 {
        Some(("household.price_search_prob_ppm"@, probability_why(p.household.price_search_prob_ppm)))
    } else if p.household.rationing_search_prob_ppm > 1_000_000 {
        Some((
            "household.rationing_search_prob_ppm"@,
            probability_why(p.household.rationing_search_prob_ppm),
        ))
    } else if p.household.employed_search_prob_ppm > 1_000_000 {
        Some((
            "household.employed_search_prob_ppm"@,
            probability_why(p.household.employed_search_prob_ppm),
        ))
    } else if p.firm.price_inaction_prob_ppm > 1_000_000 {
        Some(("firm.price_inaction_prob_ppm"@, probability_why(p.firm.price_inaction_prob_ppm)))
    } else if p.household.supplier_list_size > p.sim.firms {
        Some(("household.supplier_list_size"@, sample_why(p.household.supplier_list_size, p.sim.firms)))
    } else if p.household.firms_sampled_consumer > p.sim.firms {
        Some((
            "household.firms_sampled_consumer"@,
            sample_why(p.household.firms_sampled_consumer, p.sim.firms),
        ))
    } else if p.household.firms_sampled_unemployed > p.sim.firms {
        Some((
            "household.firms_sampled_unemployed"@,
            sample_why(p.household.firms_sampled_unemployed, p.sim.firms),
        ))
    } else if p.household.firms_sampled_employed > p.sim.firms {
        Some((
            "household.firms_sampled_employed"@,
            sample_why(p.household.firms_sampled_employed, p.sim.firms),
        ))
    } else {
        None
    }
}

/// The violation naming `key` for `why`.
fn violation(key: &'static str, why: &str) -> (d: DomainViolation)
    ensures
        d.key == key,
        d.why@ == why@,
{
    let mut text = empty_text();
    push_text(&mut text, why);
    DomainViolation { key, why: text }
}

/// A probability key above one million parts per million is refused.
fn check_probability(key: &'static str, p_ppm: u32) -> (r: Result<(), DomainViolation>)
    ensures
        p_ppm > 1_000_000 ==> (r matches Err(d) && d.key == key && d.why@ == probability_why(p_ppm)),
        p_ppm <= 1_000_000 ==> r is Ok,
{
    if p_ppm > 1_000_000 {
        let mut why = empty_text();
        push_text(&mut why, "is ");
        push_signed(&mut why, p_ppm as i128);
        push_text(
            &mut why,
            " ppm, above 1000000: Stream::coin_ppm can never reach it, so the coin is deterministically true with no diagnostic anywhere",
        );
        return Err(DomainViolation { key, why });
    }
    Ok(())
}

/// A sample wider than the firm pool is refused.
fn check_sample(key: &'static str, k: u32, firms: u32) -> (r: Result<(), DomainViolation>)
    ensures
        k > firms ==> (r matches Err(d) && d.key == key && d.why@ == sample_why(k, firms)),
        k <= firms ==> r is Ok,
{
    if k > firms {
        let mut why = empty_text();
        push_text(&mut why, "is ");
        push_signed(&mut why, k as i128);
        push_text(&mut why, " but sim.firms is ");
        push_signed(&mut why, firms as i128);
        push_text(
            &mut why,
            ": Stream::sample_k cannot draw more distinct firms than exist and would panic on the first tick",
        );
        return Err(DomainViolation { key, why });
    }
    Ok(())
}

impl Params {
    /// Check every parameter against the domain its consumer requires, and
    /// report the first one outside it.
    pub fn validate(&self) -> (r: Result<(), DomainViolation>)
        ensures
            match domain_fault(*self) {
                Some((key, why)) => r matches Err(d) && d.key@ == key && d.why@ == why,
                None => r is Ok,
            },
    {
        proof {
            reveal_strlit("sim.ticks");
            reveal_strlit("sim.households");
            reveal_strlit("sim.firms");
            reveal_strlit("sim.month_days");
            reveal_strlit("money.total_money_cents");
            reveal_strlit("firm.initial_expected_demand");
            reveal_strlit("household.consumption_exponent_ppm");
            reveal_strlit("household.price_search_prob_ppm");
            reveal_strlit("household.rationing_search_prob_ppm");
            reveal_strlit("household.employed_search_prob_ppm");
            reveal_strlit("firm.price_inaction_prob_ppm");
            reveal_strlit("household.supplier_list_size");
            reveal_strlit("household.firms_sampled_consumer");
            reveal_strlit("household.firms_sampled_unemployed");
            reveal_strlit("household.firms_sampled_employed");
        }
        if self.sim.ticks == 0 || self.sim.ticks > 0xff_ffff {
            return Err(
                violation(
                    "sim.ticks",
                    "must be in 1..=16777215: the sub-stream key's tick field is 24 bits wide, and a run that outgrows it panics in pack_stream_key mid-simulation rather than at start-up",
                ),
            );
        }
        if self.sim.households == 0 {
            return Err(
                violation(
                    "sim.households",
                    "must be non-zero: an empty population is a zero divisor, not an economy",
                ),
            );
        }
        if self.sim.households > 0xff_ffff {
            return Err(
                violation(
                    "sim.households",
                    "must be at most 16777215: the sub-stream key's agent field is 24 bits wide",
                ),
            );
        }
        if self.sim.firms == 0 {
            return Err(
                violation(
                    "sim.firms",
                    "must be non-zero: an economy with no producers has nothing to trade",
                ),
            );
        }
        if self.sim.firms > 0xffff {
            return Err(
                violation(
                    "sim.firms",
                    "must be at most 65535: FirmSlot is a u16, and a wider arena would alias two firms onto one identity",
                ),
            );
        }
        if self.sim.month_days == 0 {
            return Err(
                violation(
                    "sim.month_days",
                    "must be non-zero: it is the divisor of the monthly accounting cadence",
                ),
            );
        }
        if self.money.total_money_cents <= 0 {
            return Err(
                violation(
                    "money.total_money_cents",
                    "must be strictly positive: the core invariant is that money is a fixed pile that only ever changes hands, and an empty or negative pile is not one",
                ),
            );
        }
        let bits = self.firm.initial_expected_demand_bits;
        if !(bits >> 63u64 == 0 && (bits >> 52u64) & 0x7ffu64 != 0x7ffu64 && bits != 0) {
            return Err(
                violation(
                    "firm.initial_expected_demand",
                    "must be finite and strictly positive (CAL-01): a non-finite or non-positive value reaches pow_frac, whose domain it is outside, and then the float/integer crossing, which turns it into a plausible zero",
                ),
            );
        }
        let alpha_ppm = self.household.consumption_exponent_ppm;
        if alpha_ppm == 0 || alpha_ppm >= 1_000_000 {
            return Err(
                violation(
                    "household.consumption_exponent_ppm",
                    "must be in 1..1000000: pow_frac_det documents its domain as 0 < alpha < 1, and outside it the release build returns 1.0 or a truncated value rather than failing",
                ),
            );
        }
        check_probability("household.price_search_prob_ppm", self.household.price_search_prob_ppm)?;
        check_probability(
            "household.rationing_search_prob_ppm",
            self.household.rationing_search_prob_ppm,
        )?;
        check_probability(
            "household.employed_search_prob_ppm",
            self.household.employed_search_prob_ppm,
        )?;
        check_probability("firm.price_inaction_prob_ppm", self.firm.price_inaction_prob_ppm)?;
        check_sample("household.supplier_list_size", self.household.supplier_list_size, self.sim.firms)?;
        check_sample(
            "household.firms_sampled_consumer",
            self.household.firms_sampled_consumer,
            self.sim.firms,
        )?;
        check_sample(
            "household.firms_sampled_unemployed",
            self.household.firms_sampled_unemployed,
            self.sim.firms,
        )?;
        check_sample(
            "household.firms_sampled_employed",
            self.household.firms_sampled_employed,
            self.sim.firms,
        )?;
        Ok(())
    }
}

/// Vet a parsed parameter set: the money stock must survive being added to
/// itself, then every parameter must be in its domain.
pub fn vet(params: &Params) -> (r: Result<(), VetError>)
    ensures
        !in_money_range(2 * params.money.total_money_cents) ==> r == Err::<(), VetError>(
            VetError::MoneyRange(
                MoneyOverflow {
                    lhs: params.money.total_money_cents,
                    op: "+",
                    rhs: params.money.total_money_cents,
                },
            ),
        ),
        in_money_range(2 * params.money.total_money_cents) ==> match domain_fault(*params) {
            Some((key, why)) => r matches Err(VetError::Domain(d)) && d.key@ == key && d.why@
                == why,
            None => r is Ok,
        },
{
    let stock = Money::from_cents(params.money.total_money_cents);
    if let Err(overflow) = stock.checked_add(stock) {
        return Err(VetError::MoneyRange(overflow));
    }
    match params.validate() {
        Ok(()) => Ok(()),
        Err(d) => Err(VetError::Domain(d)),
    }
}

/// A parameter set passes validation exactly when every parameter lies in
/// its consumer's domain: the run fits the sub-stream key's fields, the
/// population and the firm set are non-empty and addressable, the money pile
/// is positive, the demand expectation is a finite positive double, the
/// consumption exponent lies strictly between zero and one, every
/// probability is at most one, and every sample width is at most the number
/// of firms.
pub proof fn law_validation_accepts_exactly_the_domain(p: Params)
    ensures
        (domain_fault(p) is None) <==> {
            &&& 1 <= p.sim.ticks <= 0xff_ffff
            &&& 1 <= p.sim.households <= 0xff_ffff
            &&& 1 <= p.sim.firms <= 0xffff
            &&& p.sim.month_days >= 1
            &&& p.money.total_money_cents > 0
            &&& p.firm.initial_expected_demand_bits >> 63u64 == 0
            &&& (p.firm.initial_expected_demand_bits >> 52u64) & 0x7ffu64 != 0x7ffu64
            &&& p.firm.initial_expected_demand_bits != 0
            &&& 0 < p.household.consumption_exponent_ppm < 1_000_000
            &&& p.household.price_search_prob_ppm <= 1_000_000
            &&& p.household.rationing_search_prob_ppm <= 1_000_000
            &&& p.household.employed_search_prob_ppm <= 1_000_000
            &&& p.firm.price_inaction_prob_ppm <= 1_000_000
            &&& p.household.supplier_list_size <= p.sim.firms
            &&& p.household.firms_sampled_consumer <= p.sim.firms
            &&& p.household.firms_sampled_unemployed <= p.sim.firms
            &&& p.household.firms_sampled_employed <= p.sim.firms
        },
{
}

/// A refused parameter set is refused for a reason: the key validation
/// names holds a value outside its domain.
pub proof fn law_validation_names_an_out_of_domain_key(p: Params)
    ensures
        domain_fault(p) matches Some((key, why)) ==> {
            &&& key == "sim.ticks"@ ==> !(1 <= p.sim.ticks <= 0xff_ffff)
            &&& key == "sim.households"@ ==> !(1 <= p.sim.households <= 0xff_ffff)
            &&& key == "sim.firms"@ ==> !(1 <= p.sim.firms <= 0xffff)
            &&& key == "sim.month_days"@ ==> p.sim.month_days == 0
            &&& key == "money.total_money_cents"@ ==> p.money.total_money_cents <= 0
            &&& key == "firm.initial_expected_demand"@ ==> !finite_positive_bits(p.firm.initial_expected_demand_bits)
            &&& key == "household.consumption_exponent_ppm"@ ==> !(0 < p.household.consumption_exponent_ppm < 1_000_000)
            &&& key == "household.price_search_prob_ppm"@ ==> p.household.price_search_prob_ppm > 1_000_000
            &&& key == "household.rationing_search_prob_ppm"@ ==> p.household.rationing_search_prob_ppm > 1_000_000
            &&& key == "household.employed_search_prob_ppm"@ ==> p.household.employed_search_prob_ppm > 1_000_000
            &&& key == "firm.price_inaction_prob_ppm"@ ==> p.firm.price_inaction_prob_ppm > 1_000_000
            &&& key == "household.supplier_list_size"@ ==> p.household.supplier_list_size > p.sim.firms
            &&& key == "household.firms_sampled_consumer"@ ==> p.household.firms_sampled_consumer > p.sim.firms
            &&& key == "household.firms_sampled_unemployed"@ ==> p.household.firms_sampled_unemployed > p.sim.firms
            &&& key == "household.firms_sampled_employed"@ ==> p.household.firms_sampled_employed > p.sim.firms
        },
{
    reveal_strlit("sim.ticks");
    reveal_strlit("sim.households");
    reveal_strlit("sim.firms");
    reveal_strlit("sim.month_days");
    reveal_strlit("money.total_money_cents");
    reveal_strlit("firm.initial_expected_demand");
    reveal_strlit("household.consumption_exponent_ppm");
    reveal_strlit("household.price_search_prob_ppm");
    reveal_strlit("household.rationing_search_prob_ppm");
    reveal_strlit("household.employed_search_prob_ppm");
    reveal_strlit("firm.price_inaction_prob_ppm");
    reveal_strlit("household.supplier_list_size");
    reveal_strlit("household.firms_sampled_consumer");
    reveal_strlit("household.firms_sampled_unemployed");
    reveal_strlit("household.firms_sampled_employed");
    assert("sim.ticks"@.len() != "sim.households"@.len());
    assert("sim.ticks"@[4] != "sim.firms"@[4]);
    assert("sim.ticks"@.len() != "sim.month_days"@.len());
    assert("sim.ticks"@.len() != "money.total_money_cents"@.len());
    assert("sim.ticks"@.len() != "firm.initial_expected_demand"@.len());
    assert("sim.ticks"@.len() != "household.consumption_exponent_ppm"@.len());
    assert("sim.ticks"@.len() != "household.price_search_prob_ppm"@.len());
    assert("sim.ticks"@.len() != "household.rationing_search_prob_ppm"@.len());
    assert("sim.ticks"@.len() != "household.employed_search_prob_ppm"@.len());
    assert("sim.ticks"@.len() != "firm.price_inaction_prob_ppm"@.len());
    assert("sim.ticks"@.len() != "household.supplier_list_size"@.len());
    assert("sim.ticks"@.len() != "household.firms_sampled_consumer"@.len());
    assert("sim.ticks"@.len() != "household.firms_sampled_unemployed"@.len());
    assert("sim.ticks"@.len() != "household.firms_sampled_employed"@.len());
    assert("sim.households"@.len() != "sim.firms"@.len());
    assert("sim.households"@[4] != "sim.month_days"@[4]);
    assert("sim.households"@.len() != "money.total_money_cents"@.len());
    assert("sim.households"@.len() != "firm.initial_expected_demand"@.len());
    assert("sim.households"@.len() != "household.consumption_exponent_ppm"@.len());
    assert("sim.households"@.len() != "household.price_search_prob_ppm"@.len());
    assert("sim.households"@.len() != "household.rationing_search_prob_ppm"@.len());
    assert("sim.households"@.len() != "household.employed_search_prob_ppm"@.len());
    assert("sim.households"@.len() != "firm.price_inaction_prob_ppm"@.len());
    assert("sim.households"@.len() != "household.supplier_list_size"@.len());
    assert("sim.households"@.len() != "household.firms_sampled_consumer"@.len());
    assert("sim.households"@.len() != "household.firms_sampled_unemployed"@.len());
    assert("sim.households"@.len() != "household.firms_sampled_employed"@.len());
    assert("sim.firms"@.len() != "sim.month_days"@.len());
    assert("sim.firms"@.len() != "money.total_money_cents"@.len());
    assert("sim.firms"@.len() != "firm.initial_expected_demand"@.len());
    assert("sim.firms"@.len() != "household.consumption_exponent_ppm"@.len());
    assert("sim.firms"@.len() != "household.price_search_prob_ppm"@.len());
    assert("sim.firms"@.len() != "household.rationing_search_prob_ppm"@.len());
    assert("sim.firms"@.len() != "household.employed_search_prob_ppm"@.len());
    assert("sim.firms"@.len() != "firm.price_inaction_prob_ppm"@.len());
    assert("sim.firms"@.len() != "household.supplier_list_size"@.len());
    assert("sim.firms"@.len() != "household.firms_sampled_consumer"@.len());
    assert("sim.firms"@.len() != "household.firms_sampled_unemployed"@.len());
    assert("sim.firms"@.len() != "household.firms_sampled_employed"@.len());
    assert("sim.month_days"@.len() != "money.total_money_cents"@.len());
    assert("sim.month_days"@.len() != "firm.initial_expected_demand"@.len());
    assert("sim.month_days"@.len() != "household.consumption_exponent_ppm"@.len());
    assert("sim.month_days"@.len() != "household.price_search_prob_ppm"@.len());
    assert("sim.month_days"@.len() != "household.rationing_search_prob_ppm"@.len());
    assert("sim.month_days"@.len() != "household.employed_search_prob_ppm"@.len());
    assert("sim.month_days"@.len() != "firm.price_inaction_prob_ppm"@.len());
    assert("sim.month_days"@.len() != "household.supplier_list_size"@.len());
    assert("sim.month_days"@.len() != "household.firms_sampled_consumer"@.len());
    assert("sim.month_days"@.len() != "household.firms_sampled_unemployed"@.len());
    assert("sim.month_days"@.len() != "household.firms_sampled_employed"@.len());
    assert("money.total_money_cents"@.len() != "firm.initial_expected_demand"@.len());
    assert("money.total_money_cents"@.len() != "household.consumption_exponent_ppm"@.len());
    assert("money.total_money_cents"@.len() != "household.price_search_prob_ppm"@.len());
    assert("money.total_money_cents"@.len() != "household.rationing_search_prob_ppm"@.len());
    assert("money.total_money_cents"@.len() != "household.employed_search_prob_ppm"@.len());
    assert("money.total_money_cents"@.len() != "firm.price_inaction_prob_ppm"@.len());
    assert("money.total_money_cents"@.len() != "household.supplier_list_size"@.len());
    assert("money.total_money_cents"@.len() != "household.firms_sampled_consumer"@.len());
    assert("money.total_money_cents"@.len() != "household.firms_sampled_unemployed"@.len());
    assert("money.total_money_cents"@.len() != "household.firms_sampled_employed"@.len());
    assert("firm.initial_expected_demand"@.len() != "household.consumption_exponent_ppm"@.len());
    assert("firm.initial_expected_demand"@.len() != "household.price_search_prob_ppm"@.len());
    assert("firm.initial_expected_demand"@.len() != "household.rationing_search_prob_ppm"@.len());
    assert("firm.initial_expected_demand"@.len() != "household.employed_search_prob_ppm"@.len());
    assert("firm.initial_expected_demand"@[5] != "firm.price_inaction_prob_ppm"@[5]);
    assert("firm.initial_expected_demand"@[0] != "household.supplier_list_size"@[0]);
    assert("firm.initial_expected_demand"@.len() != "household.firms_sampled_consumer"@.len());
    assert("firm.initial_expected_demand"@.len() != "household.firms_sampled_unemployed"@.len());
    assert("firm.initial_expected_demand"@.len() != "household.firms_sampled_employed"@.len());
    assert("household.consumption_exponent_ppm"@.len() != "household.price_search_prob_ppm"@.len());
    assert("household.consumption_exponent_ppm"@.len() != "household.rationing_search_prob_ppm"@.len());
    assert("household.consumption_exponent_ppm"@[10] != "household.employed_search_prob_ppm"@[10]);
    assert("household.consumption_exponent_ppm"@.len() != "firm.price_inaction_prob_ppm"@.len());
    assert("household.consumption_exponent_ppm"@.len() != "household.supplier_list_size"@.len());
    assert("household.consumption_exponent_ppm"@.len() != "household.firms_sampled_consumer"@.len());
    assert("household.consumption_exponent_ppm"@[10] != "household.firms_sampled_unemployed"@[10]);
    assert("household.consumption_exponent_ppm"@.len() != "household.firms_sampled_employed"@.len());
    assert("household.price_search_prob_ppm"@.len() != "household.rationing_search_prob_ppm"@.len());
    assert("household.price_search_prob_ppm"@.len() != "household.employed_search_prob_ppm"@.len());
    assert("household.price_search_prob_ppm"@.len() != "firm.price_inaction_prob_ppm"@.len());
    assert("household.price_search_prob_ppm"@.len() != "household.supplier_list_size"@.len());
    assert("household.price_search_prob_ppm"@.len() != "household.firms_sampled_consumer"@.len());
    assert("household.price_search_prob_ppm"@.len() != "household.firms_sampled_unemployed"@.len());
    assert("household.price_search_prob_ppm"@.len() != "household.firms_sampled_employed"@.len());
    assert("household.rationing_search_prob_ppm"@.len() != "household.employed_search_prob_ppm"@.len());
    assert("household.rationing_search_prob_ppm"@.len() != "firm.price_inaction_prob_ppm"@.len());
    assert("household.rationing_search_prob_ppm"@.len() != "household.supplier_list_size"@.len());
    assert("household.rationing_search_prob_ppm"@.len() != "household.firms_sampled_consumer"@.len());
    assert("household.rationing_search_prob_ppm"@.len() != "household.firms_sampled_unemployed"@.len());
    assert("household.rationing_search_prob_ppm"@.len() != "household.firms_sampled_employed"@.len());
    assert("household.employed_search_prob_ppm"@.len() != "firm.price_inaction_prob_ppm"@.len());
    assert("household.employed_search_prob_ppm"@.len() != "household.supplier_list_size"@.len());
    assert("household.employed_search_prob_ppm"@.len() != "household.firms_sampled_consumer"@.len());
    assert("household.employed_search_prob_ppm"@[10] != "household.firms_sampled_unemployed"@[10]);
    assert("household.employed_search_prob_ppm"@.len() != "household.firms_sampled_employed"@.len());
    assert("firm.price_inaction_prob_ppm"@[0] != "household.supplier_list_size"@[0]);
    assert("firm.price_inaction_prob_ppm"@.len() != "household.firms_sampled_consumer"@.len());
    assert("firm.price_inaction_prob_ppm"@.len() != "household.firms_sampled_unemployed"@.len());
    assert("firm.price_inaction_prob_ppm"@.len() != "household.firms_sampled_employed"@.len());
    assert("household.supplier_list_size"@.len() != "household.firms_sampled_consumer"@.len());
    assert("household.supplier_list_size"@.len() != "household.firms_sampled_unemployed"@.len());
    assert("household.supplier_list_size"@.len() != "household.firms_sampled_employed"@.len());
    assert("household.firms_sampled_consumer"@.len() != "household.firms_sampled_unemployed"@.len());
    assert("household.firms_sampled_consumer"@[24] != "household.firms_sampled_employed"@[24]);
    assert("household.firms_sampled_unemployed"@.len() != "household.firms_sampled_employed"@.len());
}

/// The SHA-256 digest of `bytes`, as computed by the `sha2` crate.
pub uninterp spec fn sha256_digest(bytes: Seq<u8>) -> Seq<u8>;

/// `Sha256::digest` from the `sha2` crate: the digest of the bytes, which is
/// a function of the bytes alone and, for SHA-256, 32 bytes long.
#[verifier::external_body]
pub(crate) fn sha256(bytes: &[u8]) -> (d: Vec<u8>)
    ensures
        d@ == sha256_digest(bytes@),
        d@.len() == 32,
{
    Sha256::digest(bytes).to_vec()
}

/// The lowercase hexadecimal digit for `d`.
pub open spec fn hex_digit(d: int) -> char {
    if d < 10 {
        (d + 48) as char
    } else {
        (d + 87) as char
    }
}

/// Bytes spelled as lowercase hexadecimal, two digits per byte, high nibble
/// first.
pub open spec fn hex_text(bytes: Seq<u8>) -> Seq<char>
    decreases bytes.len(),
{
    if bytes.len() == 0 {
        Seq::empty()
    } else {
        hex_text(bytes.drop_last()) + seq![
            hex_digit(bytes.last() as int / 16),
            hex_digit(bytes.last() as int % 16),
        ]
    }
}

/// Bytes spelled as lowercase hexadecimal, two digits per byte.
pub fn hex_of(bytes: &[u8]) -> (hex: String)
    ensures
        hex@ == hex_text(bytes@),
        hex@.len() == 2 * bytes@.len(),
{
    let mut hex = empty_text();
    let mut i: usize = 0;
    while i < bytes.len()
        invariant
            i <= bytes@.len(),
            hex@ == hex_text(bytes@.take(i as int)),
            hex@.len() == 2 * i,
        decreases bytes.len() - i,
    {
        let b = bytes[i];
        let high = b / 16;
        let low = b % 16;
        push_char(&mut hex, if high < 10 { (48u8 + high) as char } else { (87u8 + high) as char });
        push_char(&mut hex, if low < 10 { (48u8 + low) as char } else { (87u8 + low) as char });
        assert(bytes@.take(i + 1).drop_last() =~= bytes@.take(i as int));
        i = i + 1;
    }
    assert(bytes@.take(bytes@.len() as int) =~= bytes@);
    hex
}

/// The configuration hash: the SHA-256 digest of the raw file bytes, as 64
/// lowercase hexadecimal characters. Taken over the bytes and never over the
/// parsed parameters, so a comment change changes it too.
pub fn config_hash(bytes: &[u8]) -> (hex: String)
    ensures
        hex@ == hex_text(sha256_digest(bytes@)),
        hex@.len() == 64,
{
    let digest = sha256(bytes);
    hex_of(digest.as_slice())
}

} // verus!
