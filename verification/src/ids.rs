//! Agent identity: dense integer newtypes, and a firm arena whose identities
//! cannot silently alias across a respawn.
//!
//! A firm identity carries a generation. A slot is reused in place by a
//! respawn, which advances the slot's generation, so an identity captured
//! before the respawn resolves afterwards to nothing rather than to the new
//! occupant.
//!
//! Ordering is derived on every type here, so `(slot, generation)` is a total
//! order, slot-major.

use vstd::prelude::*;
use crate::text::{decimal, empty_text, push_signed, push_text};

verus! {

/// A household, addressed by its dense index into the household vector.
#[derive(Copy, Clone, Debug, PartialEq, Eq, PartialOrd, Ord, Hash, Structural)]
pub struct HouseholdId(pub u32);

/// A position in the firm arena. Stable for the whole run.
#[derive(Copy, Clone, Debug, PartialEq, Eq, PartialOrd, Ord, Hash, Structural)]
pub struct FirmSlot(pub u16);

/// A good. One good in v1.
#[derive(Copy, Clone, Debug, PartialEq, Eq, PartialOrd, Ord, Hash, Structural)]
pub struct GoodId(pub u16);

/// A firm identity: a slot plus the generation of the occupant that identity
/// was issued for. Two identities naming one slot in different generations
/// are different identities.
#[derive(Copy, Clone, Debug, PartialEq, Eq, PartialOrd, Ord, Hash, Structural)]
pub struct FirmId {
    pub slot: FirmSlot,
    pub generation: u32,
}

/// Who a ledger posting names. A household and a firm sharing an underlying
/// index are never the same account.
#[derive(Copy, Clone, Debug, PartialEq, Eq, PartialOrd, Ord, Hash, Structural)]
pub enum Account {
    Household(HouseholdId),
    Firm(FirmId),
}

/// The rendered form of a household: `household:<index>`.
pub open spec fn household_text(h: HouseholdId) -> Seq<char> {
    "household:"@ + decimal(h.0 as int)
}

/// The rendered form of a firm identity: `firm:<slot>:<generation>`.
pub open spec fn firm_text(f: FirmId) -> Seq<char> {
    "firm:"@ + decimal(f.slot.0 as int) + ":"@ + decimal(f.generation as int)
}

/// The rendered form of an account: its inner identity's form.
pub open spec fn account_text(a: Account) -> Seq<char> {
    match a {
        Account::Household(h) => household_text(h),
        Account::Firm(f) => firm_text(f),
    }
}

/// The rendered form of a good: `good:<index>`.
pub open spec fn good_text(g: GoodId) -> Seq<char> {
    "good:"@ + decimal(g.0 as int)
}

impl HouseholdId {
    /// Appends the rendered form.
    pub fn write_to(&self, out: &mut String)
        ensures
            final(out)@ == old(out)@ + household_text(*self),
    {
        push_text(out, "household:");
        push_signed(out, self.0 as i128);
    }

    /// The rendered form, `household:<index>`.
    pub fn render(&self) -> (s: String)
        ensures
            s@ == household_text(*self),
    {
        let mut s = empty_text();
        self.write_to(&mut s);
        s
    }
}

impl FirmSlot {
    /// The rendered form, `firm-slot:<slot>`.
    pub fn render(&self) -> (s: String)
        ensures
            s@ == "firm-slot:"@ + decimal(self.0 as int),
    {
        let mut s = empty_text();
        push_text(&mut s, "firm-slot:");
        push_signed(&mut s, self.0 as i128);
        s
    }
}

impl GoodId {
    /// Appends the rendered form.
    pub fn write_to(&self, out: &mut String)
        ensures
            final(out)@ == old(out)@ + good_text(*self),
    {
        push_text(out, "good:");
        push_signed(out, self.0 as i128);
    }

    /// The rendered form, `good:<index>`.
    pub fn render(&self) -> (s: String)
        ensures
            s@ == good_text(*self),
    {
        let mut s = empty_text();
        self.write_to(&mut s);
        s
    }
}

impl FirmId {
    /// Appends the rendered form.
    pub fn write_to(&self, out: &mut String)
        ensures
            final(out)@ == old(out)@ + firm_text(*self),
    {
        push_text(out, "firm:");
        push_signed(out, self.slot.0 as i128);
        push_text(out, ":");
        push_signed(out, self.generation as i128);
    }

    /// The rendered form, `firm:<slot>:<generation>`. The generation is part
    /// of it, so two occupants of one slot render differently.
    pub fn render(&self) -> (s: String)
        ensures
            s@ == firm_text(*self),
    {
        let mut s = empty_text();
        self.write_to(&mut s);
        s
    }
}

impl Account {
    /// Appends the rendered form.
    pub fn write_to(&self, out: &mut String)
        ensures
            final(out)@ == old(out)@ + account_text(*self),
    {
        match self {
            Account::Household(h) => h.write_to(out),
            Account::Firm(f) => f.write_to(out),
        }
    }

    /// The rendered form: the inner identity's.
    pub fn render(&self) -> (s: String)
        ensures
            s@ == account_text(*self),
    {
        let mut s = empty_text();
        self.write_to(&mut s);
        s
    }
}

/// One arena slot: the generation currently occupying it, and the occupant.
#[derive(Debug, Clone)]
pub struct SlotRecord<T> {
    generation: u32,
    occupant: T,
}

/// A fixed-length arena of firms, indexed by [`FirmSlot`], where a slot is
/// reused in place by advancing its generation.
///
/// No operation removes or moves an element: [`FirmArena::respawn_in_place`]
/// is the only mutation of the slot vector, and it changes no index and no
/// length.
#[derive(Debug, Clone)]
pub struct FirmArena<T> {
    slots: Vec<SlotRecord<T>>,
}

impl<T> FirmArena<T> {
    /// The generation occupying each slot, in slot order.
    pub closed spec fn generations(&self) -> Seq<u32> {
        self.slots@.map_values(|r: SlotRecord<T>| r.generation)
    }

    /// The occupant of each slot, in slot order.
    pub closed spec fn occupants(&self) -> Seq<T> {
        self.slots@.map_values(|r: SlotRecord<T>| r.occupant)
    }

    /// The arena's well-formedness: one generation and one occupant per slot,
    /// and no more slots than a `FirmSlot` can address.
    pub open spec fn wf(&self) -> bool {
        &&& self.generations().len() == self.occupants().len()
        &&& self.generations().len() <= u16::MAX
    }

    /// The number of slots.
    pub open spec fn spec_len(&self) -> nat {
        self.generations().len()
    }

    /// Whether `id` names the current occupant of a slot in range.
    pub open spec fn is_live(&self, id: FirmId) -> bool {
        &&& (id.slot.0 as int) < self.spec_len()
        &&& self.generations()[id.slot.0 as int] == id.generation
    }

    proof fn lemma_views(&self)
        ensures
            self.generations().len() == self.slots@.len(),
            self.occupants().len() == self.slots@.len(),
            forall|i: int|
                0 <= i < self.slots@.len() ==> #[trigger] self.generations()[i]
                    == self.slots@[i].generation,
            forall|i: int|
                0 <= i < self.slots@.len() ==> #[trigger] self.occupants()[i]
                    == self.slots@[i].occupant,
    {
    }

    /// Build an arena from an occupant per slot: slot `i` holds
    /// `occupants[i]`, every slot at generation 0.
    ///
    /// At most `u16::MAX` occupants: a longer arena would issue one
    /// `FirmSlot` for two firms.
    pub fn with_occupants(occupants: Vec<T>) -> (arena: Self)
        requires
            occupants.len() <= u16::MAX,
        ensures
            arena.wf(),
            arena.occupants() == occupants@,
            arena.generations() == Seq::new(occupants@.len(), |i: int| 0u32),
    {
        let mut slots: Vec<SlotRecord<T>> = Vec::new();
        let ghost all = occupants@;
        for occupant in it: occupants.into_iter()
            invariant
                it.seq() == all,
                slots@.len() == it.index(),
                forall|i: int|
                    0 <= i < slots@.len() ==> (#[trigger] slots@[i]).generation == 0
                        && slots@[i].occupant == all[i],
        {
            slots.push(SlotRecord { generation: 0, occupant });
        }
        assert(slots@.len() == all.len());
        let arena = FirmArena { slots };
        proof {
            arena.lemma_views();
            assert(arena.occupants() =~= all);
            assert(arena.generations() =~= Seq::new(all.len(), |i: int| 0u32));
        }
        arena
    }

    /// Number of slots. Fixed for the life of the arena.
    pub fn len(&self) -> (n: usize)
        ensures
            n == self.spec_len(),
    {
        proof {
            self.lemma_views();
        }
        self.slots.len()
    }

    /// Whether the arena has no slots.
    pub fn is_empty(&self) -> (b: bool)
        ensures
            b == (self.spec_len() == 0),
    {
        proof {
            self.lemma_views();
        }
        self.slots.len() == 0
    }

    /// The occupant `id` names, or `None` if `id` is stale or out of range.
    pub fn get(&self, id: FirmId) -> (r: Option<&T>)
        ensures
            self.is_live(id) ==> r == Some(&self.occupants()[id.slot.0 as int]),
            !self.is_live(id) ==> r is None,
    {
        proof {
            self.lemma_views();
        }
        let index = id.slot.0 as usize;
        if index < self.slots.len() && self.slots[index].generation == id.generation {
            Some(&self.slots[index].occupant)
        } else {
            None
        }
    }

    /// The occupant `id` names, mutably, or `None` if `id` is stale or out of
    /// range. Same generation check as [`FirmArena::get`]; a write through the
    /// reference changes that occupant and nothing else.
    pub fn get_mut(&mut self, id: FirmId) -> (r: Option<&mut T>)
        ensures
            old(self).is_live(id) ==> (r matches Some(x) && *x == old(self).occupants()[
                id.slot.0 as int]
                && final(self).occupants() == old(self).occupants().update(
                id.slot.0 as int,
                *final(x),
            ) && final(self).generations() == old(self).generations()),
            !old(self).is_live(id) ==> (r is None && *final(self) == *old(self)),
    {
        proof {
            self.lemma_views();
        }
        let index = id.slot.0 as usize;
        if index < self.slots.len() && self.slots[index].generation == id.generation {
            Some(&mut self.slots[index].occupant)
        } else {
            None
        }
    }

    /// The current identity of `slot`, or `None` if the slot is out of range.
    pub fn id_at(&self, slot: FirmSlot) -> (r: Option<FirmId>)
        ensures
            (slot.0 as int) < self.spec_len() ==> r == Some(
                FirmId { slot, generation: self.generations()[slot.0 as int] },
            ),
            (slot.0 as int) >= self.spec_len() ==> r is None,
    {
        proof {
            self.lemma_views();
        }
        let index = slot.0 as usize;
        if index < self.slots.len() {
            Some(FirmId { slot, generation: self.slots[index].generation })
        } else {
            None
        }
    }

    /// Replace the occupant of `slot` and issue its successor identity, one
    /// generation on. Every other slot, and the length, are untouched, and
    /// every identity previously issued for this slot is stale from here on.
    ///
    /// The slot must be in range, and its generation must have a successor.
    pub fn respawn_in_place(&mut self, slot: FirmSlot, occupant: T) -> (id: FirmId)
        requires
            (slot.0 as int) < old(self).spec_len(),
            old(self).generations()[slot.0 as int] < u32::MAX,
        ensures
            id == (FirmId { slot, generation: (old(self).generations()[slot.0 as int] + 1) as u32 }),
            final(self).generations() == old(self).generations().update(
                slot.0 as int,
                id.generation,
            ),
            final(self).occupants() == old(self).occupants().update(slot.0 as int, occupant),
            final(self).is_live(id),
            forall|held: FirmId| #[trigger]
                old(self).is_live(held) && held.slot == slot ==> !final(self).is_live(held),
            forall|other: FirmId|
                other.slot != slot ==> (#[trigger] final(self).is_live(other) == old(self).is_live(other)),
    {
        proof {
            self.lemma_views();
        }
        let index = slot.0 as usize;
        let generation = self.slots[index].generation + 1;
        self.slots.set(index, SlotRecord { generation, occupant });
        proof {
            self.lemma_views();
            assert(self.generations() =~= old(self).generations().update(
                slot.0 as int,
                generation,
            ));
            assert(self.occupants() =~= old(self).occupants().update(slot.0 as int, occupant));
        }
        FirmId { slot, generation }
    }

    /// Every current identity, in ascending slot order: one per slot.
    pub fn live_ids(&self) -> (ids: Vec<FirmId>)
        requires
            self.wf(),
        ensures
            ids@.len() == self.spec_len(),
            forall|i: int|
                0 <= i < ids@.len() ==> #[trigger] ids@[i] == (FirmId {
                    slot: FirmSlot(i as u16),
                    generation: self.generations()[i],
                }),
    {
        proof {
            self.lemma_views();
        }
        let mut ids: Vec<FirmId> = Vec::new();
        let mut index: usize = 0;
        while index < self.slots.len()
            invariant
                index <= self.slots@.len() <= u16::MAX,
                self.generations().len() == self.slots@.len(),
                forall|i: int|
                    0 <= i < self.slots@.len() ==> #[trigger] self.generations()[i]
                        == self.slots@[i].generation,
                ids@.len() == index,
                forall|i: int|
                    0 <= i < index ==> #[trigger] ids@[i] == (FirmId {
                        slot: FirmSlot(i as u16),
                        generation: self.generations()[i],
                    }),
            decreases self.slots@.len() - index,
        {
            ids.push(FirmId { slot: FirmSlot(index as u16), generation: self.slots[index].generation });
            index = index + 1;
        }
        ids
    }
}

} // verus!
