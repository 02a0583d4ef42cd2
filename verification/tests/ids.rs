use sim::ids::{Account, FirmArena, FirmId, FirmSlot, GoodId, HouseholdId};

fn fid(slot: u16, generation: u32) -> FirmId {
    FirmId { slot: FirmSlot(slot), generation }
}

#[test]
fn generation_is_part_of_identity() {
    assert_ne!(fid(3, 0), fid(3, 1));
    assert_eq!(fid(3, 0), fid(3, 0));
}

#[test]
fn firm_ids_order_slot_major_then_generation() {
    let mut ids = vec![fid(1, 5), fid(0, 9), fid(1, 2)];
    ids.sort();
    assert_eq!(ids, vec![fid(0, 9), fid(1, 2), fid(1, 5)]);
}

#[test]
fn get_is_some_for_a_live_identity_and_none_beyond_the_arena() {
    let arena = FirmArena::with_occupants(vec![10u32, 20, 30]);
    let live = arena.id_at(FirmSlot(1)).expect("slot 1 is in range");
    assert_eq!(arena.get(live), Some(&20));
    assert_eq!(arena.get(fid(99, 0)), None);
    assert_eq!(arena.id_at(FirmSlot(99)), None);
}

#[test]
fn a_stale_identity_is_a_typed_miss_through_both_accessors() {
    let mut arena = FirmArena::with_occupants(vec![10u32, 20, 30, 40, 50]);
    let stale = arena.id_at(FirmSlot(3)).expect("slot 3 is in range");
    let fresh = arena.respawn_in_place(FirmSlot(3), 400);

    assert_eq!(arena.get(stale), None);
    assert_eq!(arena.get_mut(stale), None);
    assert_eq!(arena.get(fresh), Some(&400));
    assert_eq!(arena.get_mut(fresh), Some(&mut 400));
}

#[test]
fn respawn_returns_the_same_slot_at_exactly_one_greater_generation() {
    let mut arena = FirmArena::with_occupants(vec![10u32, 20, 30, 40, 50]);
    let before = arena.id_at(FirmSlot(3)).expect("slot 3 is in range");
    let after = arena.respawn_in_place(FirmSlot(3), 400);

    assert_eq!(after.slot, before.slot);
    assert_eq!(after.generation, before.generation + 1);
    assert_eq!(arena.id_at(FirmSlot(3)), Some(after));
}

#[test]
fn live_ids_are_ascending_and_cover_every_slot() {
    let mut arena = FirmArena::with_occupants(vec![10u32, 20, 30]);
    arena.respawn_in_place(FirmSlot(1), 200);
    let ids = arena.live_ids();

    assert_eq!(ids.len(), arena.len());
    assert_eq!(ids, vec![fid(0, 0), fid(1, 1), fid(2, 0)]);
    assert!(ids.windows(2).all(|w| w[0] < w[1]));
}

#[test]
fn respawn_disturbs_no_neighbouring_slot() {
    let mut arena = FirmArena::with_occupants(vec![10u32, 20, 30, 40, 50]);
    let two = arena.id_at(FirmSlot(2)).expect("slot 2 is in range");
    let four = arena.id_at(FirmSlot(4)).expect("slot 4 is in range");

    arena.respawn_in_place(FirmSlot(3), 400);

    assert_eq!(arena.id_at(FirmSlot(2)), Some(two));
    assert_eq!(arena.id_at(FirmSlot(4)), Some(four));
    assert_eq!(arena.get(two), Some(&30));
    assert_eq!(arena.get(four), Some(&50));
    assert_eq!(arena.len(), 5);
}

#[test]
fn an_arena_at_the_slot_limit_issues_one_distinct_identity_per_slot() {
    let arena = FirmArena::with_occupants(vec![0u32; u16::MAX as usize]);
    let ids = arena.live_ids();

    assert_eq!(ids.len(), u16::MAX as usize);
    assert_eq!(ids.first(), Some(&fid(0, 0)));
    assert_eq!(ids.last(), Some(&fid(u16::MAX - 1, 0)));
    assert!(ids.windows(2).all(|w| w[0] < w[1]));
}

#[test]
fn the_newtypes_and_account_carry_equality_and_a_total_order() {
    assert!(HouseholdId(1) < HouseholdId(2));
    assert!(FirmSlot(1) < FirmSlot(2));
    assert!(GoodId(1) < GoodId(2));

    let household = Account::Household(HouseholdId(7));
    let firm = Account::Firm(fid(7, 0));
    assert_ne!(household, firm);

    let mut accounts = vec![firm, household];
    accounts.sort();
    assert_eq!(accounts, vec![household, firm]);
}

#[test]
fn every_address_renders_in_its_pinned_form() {
    assert_eq!(HouseholdId(12).render(), "household:12");
    assert_eq!(FirmSlot(3).render(), "firm-slot:3");
    assert_eq!(GoodId(0).render(), "good:0");
    assert_eq!(fid(3, 0).render(), "firm:3:0");
    assert_eq!(Account::Household(HouseholdId(12)).render(), "household:12");
    assert_eq!(Account::Firm(fid(3, 0)).render(), "firm:3:0");
}

#[test]
fn two_generations_of_one_slot_render_differently() {
    assert_eq!(fid(3, 0).render(), "firm:3:0");
    assert_eq!(fid(3, 1).render(), "firm:3:1");
    assert_ne!(fid(3, 0).render(), fid(3, 1).render());
    assert_ne!(Account::Firm(fid(3, 0)).render(), Account::Firm(fid(3, 1)).render());
}

#[test]
fn an_empty_arena_has_no_slots_and_no_identities() {
    let arena: FirmArena<u32> = FirmArena::with_occupants(Vec::new());
    assert!(arena.is_empty());
    assert_eq!(arena.len(), 0);
    assert!(arena.live_ids().is_empty());
    assert_eq!(arena.id_at(FirmSlot(0)), None);
}
