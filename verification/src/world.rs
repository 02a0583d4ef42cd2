//! The world: the population, the firm arena, and the per-tick activation
//! state. Money and goods are not here; they live only in the books.

use vstd::prelude::*;
use crate::config::Params;
use crate::ids::{FirmArena, HouseholdId};

verus! {

/// A household. Its cash and stock live in the books, keyed by its index.
#[derive(Debug, Clone, Copy, PartialEq, Eq, Structural)]
pub struct Household {
    pub id: HouseholdId,
}

/// A firm. Its cash, stock and payroll live in the books, keyed by its slot.
#[derive(Debug, Clone, Copy, PartialEq, Eq, Structural)]
pub struct Firm {
    /// The posted price, in cents.
    pub price_cents: i64,
}

/// Everything the tick pipeline reads and writes besides the books.
#[derive(Debug, Clone)]
pub struct World {
    /// The current tick.
    pub tick: u32,
    /// Every household, by index.
    pub households: Vec<Household>,
    /// Every firm, by slot.
    pub firms: FirmArena<Firm>,
    /// This tick's household activation order, as household indices.
    pub household_order: Vec<u32>,
    /// This tick's firm activation order, as firm slots.
    pub firm_order: Vec<u32>,
    /// The draws the activation shuffle took this tick.
    pub draws_this_tick: u32,
    /// A digest of this tick's two activation orders.
    pub activation_digest: i64,
}

/// The households of a population of `n`: household `i` has index `i`.
pub open spec fn population(n: nat) -> Seq<Household> {
    Seq::new(n, |i: int| Household { id: HouseholdId(i as u32) })
}

impl World {
    /// The world at tick zero: the configured population, every firm at the
    /// configured initial price in a fresh arena, and no activation state.
    pub fn new(params: &Params) -> (w: World)
        requires
            params.sim.firms <= u16::MAX,
        ensures
            w.tick == 0,
            w.households@ == population(params.sim.households as nat),
            w.firms.wf(),
            w.firms.occupants() == Seq::new(
                params.sim.firms as nat,
                |i: int| Firm { price_cents: params.firm.initial_price_cents },
            ),
            w.firms.generations() == Seq::new(params.sim.firms as nat, |i: int| 0u32),
            w.household_order@.len() == 0,
            w.firm_order@.len() == 0,
            w.draws_this_tick == 0,
            w.activation_digest == 0,
    {
        let mut households: Vec<Household> = Vec::new();
        let mut index: u32 = 0;
        while index < params.sim.households
            invariant
                index <= params.sim.households,
                households@ == population(index as nat),
            decreases params.sim.households - index,
        {
            households.push(Household { id: HouseholdId(index) });
            index = index + 1;
            assert(households@ =~= population(index as nat));
        }
        let firm_count = params.sim.firms as usize;
        let price = Firm { price_cents: params.firm.initial_price_cents };
        let mut occupants: Vec<Firm> = Vec::new();
        let mut k: usize = 0;
        while k < firm_count
            invariant
                k <= firm_count,
                firm_count == params.sim.firms,
                price == (Firm { price_cents: params.firm.initial_price_cents }),
                occupants@ == Seq::new(k as nat, |i: int| price),
            decreases firm_count - k,
        {
            occupants.push(price);
            k = k + 1;
            assert(occupants@ =~= Seq::new(k as nat, |i: int| price));
        }
        let firms = FirmArena::with_occupants(occupants);
        World {
            tick: 0,
            households,
            firms,
            household_order: Vec::new(),
            firm_order: Vec::new(),
            draws_this_tick: 0,
            activation_digest: 0,
        }
    }
}

} // verus!
