//! The tick pipeline: the nine documented phases, in a fixed order.
//!
//! The phase table is declared in run order. The first seven phases are
//! no-ops at this stage of the model: it has no economics yet, by design.
//! The invariant check runs seventh-from-zero and the log runs last, so a
//! tick that violates an invariant is never logged.
//!
//! Before the phases run, each tick shuffles the household and firm
//! activation orders from their own sub-streams, and records how many draws
//! that took and a digest of the two orders, so the seed reaches the log.

use vstd::prelude::*;
use vstd::multiset::Multiset;
use crate::books::{Books, BooksView};
use crate::config::{sha256, sha256_digest};
use crate::invariants::{CheckSet, Violation, checkable, run_outcome};
use crate::log::{Event, Sink, TickRow, endowment_events, is_endowment_of};
use crate::numeric::{prefix_sums_fit, sum_ints};
use crate::rng::{Purpose, Rngs, fisher_yates, full_pass, scaled_below, stream_key, stream_word};
use crate::world::World;

verus! {

broadcast use vstd::seq_lib::group_to_multiset_ensures, crate::money::Money::lemma_from_cents;

/// Which phase of the tick, declared in the order the phases run, so the
/// derived order agrees with the run order.
#[derive(Debug, Clone, Copy, PartialEq, Eq, PartialOrd, Ord, Hash, Structural)]
pub enum PhaseId {
    FirmPlanning,
    LabourMarket,
    Production,
    Wages,
    GoodsMarket,
    FirmAccounting,
    Bankruptcy,
    Invariants,
    Log,
}

/// Every phase, in the order the phases run.
pub open spec fn all_phases() -> Seq<PhaseId> {
    seq![
        PhaseId::FirmPlanning,
        PhaseId::LabourMarket,
        PhaseId::Production,
        PhaseId::Wages,
        PhaseId::GoodsMarket,
        PhaseId::FirmAccounting,
        PhaseId::Bankruptcy,
        PhaseId::Invariants,
        PhaseId::Log,
    ]
}

/// A phase's stable name: the snake-case spelling of its identifier.
pub open spec fn phase_name(id: PhaseId) -> Seq<char> {
    match id {
        PhaseId::FirmPlanning => "firm_planning"@,
        PhaseId::LabourMarket => "labour_market"@,
        PhaseId::Production => "production"@,
        PhaseId::Wages => "wages"@,
        PhaseId::GoodsMarket => "goods_market"@,
        PhaseId::FirmAccounting => "firm_accounting"@,
        PhaseId::Bankruptcy => "bankruptcy"@,
        PhaseId::Invariants => "invariants"@,
        PhaseId::Log => "log"@,
    }
}

impl PhaseId {
    /// Every phase, in the order the phases run.
    pub fn all() -> (ids: Vec<PhaseId>)
        ensures
            ids@ == all_phases(),
    {
        let ids = vec![
            PhaseId::FirmPlanning,
            PhaseId::LabourMarket,
            PhaseId::Production,
            PhaseId::Wages,
            PhaseId::GoodsMarket,
            PhaseId::FirmAccounting,
            PhaseId::Bankruptcy,
            PhaseId::Invariants,
            PhaseId::Log,
        ];
        assert(ids@ =~= all_phases());
        ids
    }

    /// The phase's stable name.
    pub fn name(self) -> (s: &'static str)
        ensures
            s@ == phase_name(self),
    {
        match self {
            PhaseId::FirmPlanning => "firm_planning",
            PhaseId::LabourMarket => "labour_market",
            PhaseId::Production => "production",
            PhaseId::Wages => "wages",
            PhaseId::GoodsMarket => "goods_market",
            PhaseId::FirmAccounting => "firm_accounting",
            PhaseId::Bankruptcy => "bankruptcy",
            PhaseId::Invariants => "invariants",
            PhaseId::Log => "log",
        }
    }
}

/// The full, ordered table: every phase with its stable name, in the order
/// it runs.
pub fn phases() -> (table: Vec<(PhaseId, &'static str)>)
    ensures
        table@.len() == all_phases().len(),
        forall|i: int| 0 <= i < table@.len() ==> (#[trigger] table@[i]).0 == all_phases()[i]
            && table@[i].1@ == phase_name(all_phases()[i]),
{
    let ids = PhaseId::all();
    let mut table: Vec<(PhaseId, &'static str)> = Vec::new();
    let mut i: usize = 0;
    while i < ids.len()
        invariant
            ids@ == all_phases(),
            i <= ids.len(),
            table@.len() == i,
            forall|j: int| 0 <= j < i ==> (#[trigger] table@[j]).0 == all_phases()[j]
                && table@[j].1@ == phase_name(all_phases()[j]),
        decreases ids.len() - i,
    {
        let id = ids[i];
        table.push((id, id.name()));
        i = i + 1;
    }
    table
}

// ---------------------------------------------------------------------------
// The activation digest
// ---------------------------------------------------------------------------

/// The four little-endian bytes of `x`.
pub open spec fn le_bytes(x: u32) -> Seq<u8> {
    seq![
        (x % 0x100) as u8,
        ((x / 0x100) % 0x100) as u8,
        ((x / 0x1_0000) % 0x100) as u8,
        ((x / 0x100_0000) % 0x100) as u8,
    ]
}

/// The little-endian bytes of every index of `s`, in order.
pub open spec fn indices_bytes(s: Seq<u32>) -> Seq<u8>
    decreases s.len(),
{
    if s.len() == 0 {
        Seq::empty()
    } else {
        indices_bytes(s.drop_last()) + le_bytes(s.last())
    }
}

/// The bytes the digest is taken over: the household order, a `|`, then the
/// firm order.
pub open spec fn order_bytes(households: Seq<u32>, firms: Seq<u32>) -> Seq<u8> {
    indices_bytes(households) + seq![0x7cu8] + indices_bytes(firms)
}

/// The four bytes of an index determine it.
proof fn lemma_le_bytes_injective(x: u32, y: u32)
    requires
        le_bytes(x) == le_bytes(y),
    ensures
        x == y,
{
    assert(le_bytes(x)[0] == le_bytes(y)[0]);
    assert(le_bytes(x)[1] == le_bytes(y)[1]);
    assert(le_bytes(x)[2] == le_bytes(y)[2]);
    assert(le_bytes(x)[3] == le_bytes(y)[3]);
    assert(x == (x % 0x100) + 0x100 * ((x / 0x100) % 0x100) + 0x1_0000 * ((x / 0x1_0000) % 0x100)
        + 0x100_0000 * ((x / 0x100_0000) % 0x100)) by (bit_vector);
    assert(y == (y % 0x100) + 0x100 * ((y / 0x100) % 0x100) + 0x1_0000 * ((y / 0x1_0000) % 0x100)
        + 0x100_0000 * ((y / 0x100_0000) % 0x100)) by (bit_vector);
}

/// The bytes of a sequence of indices are each index's four bytes, in order.
proof fn lemma_indices_bytes(s: Seq<u32>)
    ensures
        indices_bytes(s).len() == 4 * s.len(),
        forall|i: int|
            0 <= i < s.len() ==> indices_bytes(s).subrange(4 * i, 4 * i + 4) == le_bytes(#[trigger] s[i]),
    decreases s.len(),
{
    if s.len() > 0 {
        let p = s.drop_last();
        lemma_indices_bytes(p);
        let b = indices_bytes(s);
        assert(b == indices_bytes(p) + le_bytes(s.last()));
        assert forall|i: int| 0 <= i < s.len() implies b.subrange(4 * i, 4 * i + 4) == le_bytes(
            #[trigger] s[i],
        ) by {
            if i < p.len() {
                assert(p[i] == s[i]);
                assert(b.subrange(4 * i, 4 * i + 4) =~= indices_bytes(p).subrange(4 * i, 4 * i + 4));
            } else {
                assert(b.subrange(4 * i, 4 * i + 4) =~= le_bytes(s.last()));
            }
        }
    }
}

/// Two sequences of indices of the same length with the same bytes are equal.
proof fn lemma_indices_bytes_injective(a: Seq<u32>, b: Seq<u32>)
    requires
        a.len() == b.len(),
        indices_bytes(a) == indices_bytes(b),
    ensures
        a == b,
{
    lemma_indices_bytes(a);
    lemma_indices_bytes(b);
    assert forall|i: int| 0 <= i < a.len() implies a[i] == b[i] by {
        assert(le_bytes(a[i]) == indices_bytes(a).subrange(4 * i, 4 * i + 4));
        assert(le_bytes(b[i]) == indices_bytes(b).subrange(4 * i, 4 * i + 4));
        lemma_le_bytes_injective(a[i], b[i]);
    }
    assert(a =~= b);
}

/// The bytes the activation digest is taken over determine the two orders,
/// once the household population is fixed: two pairs of orders with
/// household orders of one length and the same bytes are the same pair.
pub proof fn law_order_bytes_determine_the_orders(h1: Seq<u32>, f1: Seq<u32>, h2: Seq<u32>, f2: Seq<u32>)
    requires
        h1.len() == h2.len(),
        order_bytes(h1, f1) == order_bytes(h2, f2),
    ensures
        h1 == h2,
        f1 == f2,
{
    lemma_indices_bytes(h1);
    lemma_indices_bytes(h2);
    lemma_indices_bytes(f1);
    lemma_indices_bytes(f2);
    let n = (4 * h1.len()) as int;
    let b1 = order_bytes(h1, f1);
    let b2 = order_bytes(h2, f2);
    assert(b1.subrange(0, n) =~= indices_bytes(h1));
    assert(b2.subrange(0, n) =~= indices_bytes(h2));
    lemma_indices_bytes_injective(h1, h2);
    assert(b1.len() == n + 1 + 4 * f1.len());
    assert(b2.len() == n + 1 + 4 * f2.len());
    assert(f1.len() == f2.len());
    assert(b1.subrange(n + 1, b1.len() as int) =~= indices_bytes(f1));
    assert(b2.subrange(n + 1, b2.len() as int) =~= indices_bytes(f2));
    lemma_indices_bytes_injective(f1, f2);
}

/// The number `bytes` spell, least significant byte first.
pub open spec fn le_value(bytes: Seq<u8>) -> nat
    decreases bytes.len(),
{
    if bytes.len() == 0 {
        0
    } else {
        (bytes[0] + 0x100 * le_value(bytes.drop_first())) as nat
    }
}

/// The activation digest of two orders: the first eight bytes of the SHA-256
/// digest of their bytes, read little-endian, halved so that it fits a
/// signed 64-bit column as a non-negative value.
pub open spec fn order_digest_value(households: Seq<u32>, firms: Seq<u32>) -> int {
    le_value(sha256_digest(order_bytes(households, firms)).take(8)) as int / 2
}

fn push_le(bytes: &mut Vec<u8>, x: u32)
    ensures
        final(bytes)@ == old(bytes)@ + le_bytes(x),
{
    bytes.push((x % 0x100) as u8);
    bytes.push(((x / 0x100) % 0x100) as u8);
    bytes.push(((x / 0x1_0000) % 0x100) as u8);
    bytes.push(((x / 0x100_0000) % 0x100) as u8);
    assert(bytes@ =~= old(bytes)@ + le_bytes(x));
}

fn push_indices(bytes: &mut Vec<u8>, s: &[u32])
    ensures
        final(bytes)@ == old(bytes)@ + indices_bytes(s@),
{
    let ghost start = bytes@;
    let mut i: usize = 0;
    while i < s.len()
        invariant
            i <= s@.len(),
            bytes@ == start + indices_bytes(s@.take(i as int)),
        decreases s.len() - i,
    {
        push_le(bytes, s[i]);
        assert(s@.take(i + 1).drop_last() =~= s@.take(i as int));
        i = i + 1;
        assert(bytes@ =~= start + indices_bytes(s@.take(i as int)));
    }
    assert(s@.take(s@.len() as int) =~= s@);
}

proof fn lemma_le_value_bound(bytes: Seq<u8>)
    ensures
        le_value(bytes) < vstd::arithmetic::power::pow(0x100, bytes.len()),
    decreases bytes.len(),
{
    vstd::arithmetic::power::lemma_pow0(0x100);
    if bytes.len() > 0 {
        lemma_le_value_bound(bytes.drop_first());
        vstd::arithmetic::power::lemma_pow_adds(0x100, 1, (bytes.len() - 1) as nat);
        vstd::arithmetic::power::lemma_pow1(0x100);
        let rest = le_value(bytes.drop_first());
        let p = vstd::arithmetic::power::pow(0x100, (bytes.len() - 1) as nat);
        assert(bytes[0] + 0x100 * rest < 0x100 * p) by (nonlinear_arith)
            requires
                bytes[0] < 0x100,
                rest < p,
        ;
    }
}

/// The activation digest read off a SHA-256 digest: its first eight bytes,
/// little-endian, halved so the value fits a signed 64-bit column as a
/// non-negative number.
pub fn leading_value(digest: &[u8]) -> (d: i64)
    requires
        digest@.len() >= 8,
    ensures
        d == le_value(digest@.take(8)) as int / 2,
        d >= 0,
{
    let ghost leading = digest@.take(8);
    let mut value: u64 = 0;
    let mut i: usize = 8;
    proof {
        assert(leading.subrange(8, 8) =~= Seq::<u8>::empty());
    }
    while i > 0
        invariant
            i <= 8,
            digest@.len() >= 8,
            leading == digest@.take(8),
            value == le_value(leading.subrange(i as int, 8)),
        decreases i,
    {
        i = i - 1;
        proof {
            let tail = leading.subrange(i as int, 8);
            assert(tail.drop_first() =~= leading.subrange(i + 1, 8));
            lemma_le_value_bound(tail);
            vstd::arithmetic::power::lemma_pow_increases(0x100, tail.len(), 8);
            vstd::arithmetic::power::lemma_pow_positive(0x100, 8);
            assert(vstd::arithmetic::power::pow(0x100, 8) == 0x1_0000_0000_0000_0000) by {
                vstd::arithmetic::power::lemma_pow_adds(0x100, 4, 4);
                reveal_with_fuel(vstd::arithmetic::power::pow, 5);
            }
        }
        value = value * 0x100 + digest[i] as u64;
    }
    assert(leading.subrange(0, 8) =~= leading);
    (value / 2) as i64
}

/// The activation digest of the two orders, a non-negative value that moves
/// with the permutation, taken through SHA-256 over the orders' bytes.
pub fn order_digest(households: &[u32], firms: &[u32]) -> (d: i64)
    ensures
        d == order_digest_value(households@, firms@),
        d >= 0,
{
    let mut bytes: Vec<u8> = Vec::new();
    push_indices(&mut bytes, households);
    bytes.push(0x7cu8);
    push_indices(&mut bytes, firms);
    assert(bytes@ =~= order_bytes(households@, firms@));
    let digest = sha256(bytes.as_slice());
    leading_value(digest.as_slice())
}

// ---------------------------------------------------------------------------
// The activation shuffle
// ---------------------------------------------------------------------------

/// The indices `0..n`, in order.
pub open spec fn identity_order(n: nat) -> Seq<u32> {
    Seq::new(n, |i: int| i as u32)
}

/// A population's activation order at `tick` under the master key `key`:
/// the indices `0..n`, shuffled by one full Fisher-Yates pass over the
/// sub-stream of `(tick, 0, purpose)`.
pub open spec fn activation_order(key: Seq<u8>, tick: u32, p: Purpose, n: nat) -> Seq<u32> {
    fisher_yates(identity_order(n), key, stream_key(tick, 0, p) as u64, 0, full_pass(n))
}

fn fill_identity(order: &mut Vec<u32>, n: u32)
    ensures
        final(order)@ == identity_order(n as nat),
{
    order.clear();
    let mut i: u32 = 0;
    while i < n
        invariant
            i <= n,
            order@ == identity_order(i as nat),
        decreases n - i,
    {
        order.push(i);
        i = i + 1;
        assert(order@ =~= identity_order(i as nat));
    }
}

/// A word scaled into `0..m` lands in `0..m`.
proof fn lemma_scaled_below_in_range(word: u64, m: int)
    requires
        0 < m <= u64::MAX,
    ensures
        0 <= scaled_below(word, m as u64) < m,
{
    let product = word * m;
    assert(0 <= product < 0x1_0000_0000_0000_0000 * m) by (nonlinear_arith)
        requires
            product == word * m,
            0 <= word < 0x1_0000_0000_0000_0000,
            m > 0,
    ;
    assert(0 <= product / 0x1_0000_0000_0000_0000 < m) by (nonlinear_arith)
        requires
            0 <= product < 0x1_0000_0000_0000_0000 * m,
    ;
}

/// A Fisher-Yates pass keeps the pool's length, and after its first step
/// never moves the entry at position zero again.
proof fn lemma_fisher_yates_front(pool: Seq<u32>, key: Seq<u8>, id: u64, first: int, steps: nat)
    requires
        steps <= pool.len() <= u64::MAX,
    ensures
        fisher_yates(pool, key, id, first, steps).len() == pool.len(),
        steps >= 1 ==> fisher_yates(pool, key, id, first, steps)[0] == fisher_yates(
            pool,
            key,
            id,
            first,
            1,
        )[0],
    decreases steps,
{
    if steps > 0 {
        let t = (steps - 1) as nat;
        lemma_fisher_yates_front(pool, key, id, first, t);
        let before = fisher_yates(pool, key, id, first, t);
        let w = stream_word(key, id, first + t);
        lemma_scaled_below_in_range(w, before.len() - t);
    }
}

/// Each population's activation order is the Fisher-Yates shuffle of its
/// own sub-stream, households from the households' and firms from the
/// firms': one full pass over `0..n` drawn from the `(tick, 0, purpose)`
/// keystream, so the first agent activated is the one the sub-stream's first
/// word scales into `0..n`.
pub proof fn law_activation_orders_are_drawn_from_their_own_sub_streams(
    key: Seq<u8>,
    tick: u32,
    p: Purpose,
    n: nat,
)
    requires
        p == Purpose::ActivationOrderHouseholds || p == Purpose::ActivationOrderFirms,
        n <= u32::MAX,
    ensures
        activation_order(key, tick, p, n) == fisher_yates(
            identity_order(n),
            key,
            stream_key(tick, 0, p) as u64,
            0,
            full_pass(n),
        ),
        activation_order(key, tick, p, n).len() == n,
        n >= 2 ==> activation_order(key, tick, p, n)[0] == scaled_below(
            stream_word(key, stream_key(tick, 0, p) as u64, 0),
            n as u64,
        ),
{
    let id = stream_key(tick, 0, p) as u64;
    lemma_fisher_yates_front(identity_order(n), key, id, 0, full_pass(n));
    if n >= 2 {
        lemma_scaled_below_in_range(stream_word(key, id, 0), n as int);
        assert(fisher_yates(identity_order(n), key, id, 0, 0) == identity_order(n));
    }
}

/// Whether neither of the sub-stream keys tick `t`'s activation shuffle
/// opens has been opened yet.
pub open spec fn tick_keys_free(opened: Set<int>, t: int) -> bool {
    &&& !opened.contains(stream_key(t as u32, 0, Purpose::ActivationOrderHouseholds))
    &&& !opened.contains(stream_key(t as u32, 0, Purpose::ActivationOrderFirms))
}

/// The opened keys once tick `t`'s activation shuffle has opened its two.
pub open spec fn after_shuffle(opened: Set<int>, t: u32) -> Set<int> {
    opened.insert(stream_key(t, 0, Purpose::ActivationOrderHouseholds)).insert(
        stream_key(t, 0, Purpose::ActivationOrderFirms),
    )
}

/// Whether the activation keys of every tick from `from` to `to - 1` are
/// still unopened.
pub open spec fn activation_keys_free(opened: Set<int>, from: int, to: int) -> bool {
    forall|t: int| from <= t < to ==> #[trigger] tick_keys_free(opened, t)
}

/// Opening one tick's activation keys leaves every later tick's free.
proof fn lemma_later_keys_stay_free(opened: Set<int>, n: u32, to: int)
    requires
        to <= 0x100_0000,
        n < to,
        activation_keys_free(opened, n as int, to),
    ensures
        activation_keys_free(after_shuffle(opened, n), n + 1, to),
{
    let h = Purpose::ActivationOrderHouseholds;
    let f = Purpose::ActivationOrderFirms;
    assert forall|t: int| n + 1 <= t < to implies #[trigger] tick_keys_free(after_shuffle(opened, n), t) by {
        assert(tick_keys_free(opened, t));
        let u = t as u32;
        if stream_key(u, 0, h) == stream_key(n, 0, h) || stream_key(u, 0, h) == stream_key(n, 0, f) {
            if stream_key(u, 0, h) == stream_key(n, 0, h) {
                crate::rng::law_pack_stream_key_is_injective(u, 0, h, n, 0, h);
            } else {
                crate::rng::law_pack_stream_key_is_injective(u, 0, h, n, 0, f);
            }
        }
        if stream_key(u, 0, f) == stream_key(n, 0, h) || stream_key(u, 0, f) == stream_key(n, 0, f) {
            if stream_key(u, 0, f) == stream_key(n, 0, h) {
                crate::rng::law_pack_stream_key_is_injective(u, 0, f, n, 0, h);
            } else {
                crate::rng::law_pack_stream_key_is_injective(u, 0, f, n, 0, f);
            }
        }
    }
}

/// Shuffle this tick's activation orders: each population's indices
/// `0..n`, permuted from its own sub-stream, then the draw count and the
/// digest of the two orders recorded.
pub fn shuffle_activation(world: &mut World, rngs: &mut Rngs)
    requires
        old(world).tick < 0x100_0000,
        tick_keys_free(old(rngs).opened(), old(world).tick as int),
        old(world).households@.len() + old(world).firms.spec_len() <= u32::MAX,
        old(world).firms.wf(),
    ensures
        final(world).household_order@.to_multiset() == identity_order(
            old(world).households@.len(),
        ).to_multiset(),
        final(world).firm_order@.to_multiset() == identity_order(
            old(world).firms.spec_len(),
        ).to_multiset(),
        final(world).household_order@ == activation_order(
            old(rngs)@,
            old(world).tick,
            Purpose::ActivationOrderHouseholds,
            old(world).households@.len(),
        ),
        final(world).firm_order@ == activation_order(
            old(rngs)@,
            old(world).tick,
            Purpose::ActivationOrderFirms,
            old(world).firms.spec_len(),
        ),
        final(world).draws_this_tick == full_pass(old(world).households@.len()) + full_pass(
            old(world).firms.spec_len(),
        ),
        final(world).activation_digest == order_digest_value(
            final(world).household_order@,
            final(world).firm_order@,
        ),
        final(world).tick == old(world).tick,
        final(world).households == old(world).households,
        final(world).firms == old(world).firms,
        final(rngs)@ == old(rngs)@,
        final(rngs).opened() == after_shuffle(old(rngs).opened(), old(world).tick),
{
    world.draws_this_tick = 0;
    let household_count = world.households.len() as u32;
    fill_identity(&mut world.household_order, household_count);
    let mut households = rngs.stream(world.tick, 0, Purpose::ActivationOrderHouseholds);
    households.shuffle_in_place(&mut world.household_order);
    world.draws_this_tick = world.draws_this_tick + households.draws();
    let firm_count = world.firms.len() as u32;
    fill_identity(&mut world.firm_order, firm_count);
    let mut firms = rngs.stream(world.tick, 0, Purpose::ActivationOrderFirms);
    firms.shuffle_in_place(&mut world.firm_order);
    world.draws_this_tick = world.draws_this_tick + firms.draws();
    world.activation_digest = order_digest(
        world.household_order.as_slice(),
        world.firm_order.as_slice(),
    );
}

// ---------------------------------------------------------------------------
// The phases and the loop
// ---------------------------------------------------------------------------

/// The row the log phase records for a tick: the books' totals, the tick's
/// activation record and the journal's length.
pub open spec fn tick_row_of(v: BooksView, world: World) -> TickRow {
    row_of(v, world.tick, world.draws_this_tick, world.activation_digest)
}

/// The row of a tick whose books are `v`, with the tick's number, its
/// activation draw count and its activation digest.
pub open spec fn row_of(v: BooksView, tick: u32, draws: u32, digest: i64) -> TickRow {
    TickRow {
        tick,
        total_money_cents: v.total_money() as i64,
        firm_cash_cents: sum_ints(v.firm_cash) as i64,
        stock_units: v.total_stock() as i64,
        headcount: crate::books::sum_counts(v.headcount) as u64,
        transactions: v.transactions,
        rng_draws: draws,
        activation_digest: digest,
        postings: v.journal.len() as u32,
    }
}

/// Whether `after` is `before` followed by one endowment record per account
/// of `v`, in the walk order, at tick zero.
#[verifier::opaque]
pub open spec fn endowment_appended(before: Seq<Event>, after: Seq<Event>, v: BooksView) -> bool {
    &&& after.len() == before.len() + v.balances().len()
    &&& forall|j: int| 0 <= j < before.len() ==> #[trigger] after[j] == before[j]
    &&& forall|i: int|
        0 <= i < v.balances().len() ==> is_endowment_of(#[trigger] after[before.len() + i], v, i, 0)
}

/// The books as tick `t` of a run that opens on `v` sees them: the opening
/// books at tick zero, the closed books after.
pub open spec fn books_at(v: BooksView, t: int) -> BooksView {
    if t == 0 {
        v
    } else {
        v.after_tick()
    }
}

/// The row tick `t` logs in a run keyed by `key` whose books open as `v`,
/// over `h` households and `f` firm slots.
pub open spec fn row_at(key: Seq<u8>, v: BooksView, h: nat, f: nat, t: u32) -> TickRow {
    row_of(
        books_at(v, t as int),
        t,
        (full_pass(h) + full_pass(f)) as u32,
        order_digest_value(
            activation_order(key, t, Purpose::ActivationOrderHouseholds, h),
            activation_order(key, t, Purpose::ActivationOrderFirms, f),
        ) as i64,
    )
}

/// The rows of the first `k` ticks of such a run, in order.
pub open spec fn rows_upto(key: Seq<u8>, v: BooksView, h: nat, f: nat, k: int) -> Seq<TickRow>
    decreases k,
{
    if k <= 0 {
        Seq::empty()
    } else {
        rows_upto(key, v, h, f, k - 1).push(row_at(key, v, h, f, (k - 1) as u32))
    }
}

/// How many of the ticks from `t` to `ticks - 1` a run completes before its
/// first violation, counted from tick zero: the halting tick, or `ticks`
/// when none halts.
pub open spec fn completed(ids: Seq<crate::invariants::CheckId>, v: BooksView, t: int, ticks: int) -> int
    decreases ticks - t,
{
    if t < 0 || t >= ticks {
        ticks
    } else if run_outcome(ids, books_at(v, t), t as u32) is Err {
        t
    } else {
        completed(ids, v, t + 1, ticks)
    }
}

/// What the log phase needs of the books to read them without overflow.
pub open spec fn loggable(v: BooksView) -> bool {
    &&& checkable(v)
    &&& prefix_sums_fit(v.firm_cash)
    &&& v.journal.len() <= u32::MAX
}

/// Whether the audits and the log phase can read `books` without overflow:
/// every running total of the balances, the stocks and the firm balances
/// fits, and the journal's length fits 32 bits.
pub fn can_log(books: &Books) -> (b: bool)
    requires
        books.inv(),
    ensures
        b == loggable(books@),
{
    books.totals_fit() && books.journal().len() <= u32::MAX as usize
}

/// The log phase: the tick's row, built from the books' accessors.
pub fn log_row(books: &Books, world: &World) -> (row: TickRow)
    requires
        books.inv(),
        loggable(books@),
    ensures
        row == tick_row_of(books@, *world),
{
    let goods = books.goods();
    let mut stock_units: i64 = 0;
    let mut k: usize = 0;
    while k < goods.len()
        invariant
            books.inv(),
            loggable(books@),
            goods@ == seq![crate::books::only_good()],
            k <= goods.len(),
            stock_units == (if k == 0 {
                0
            } else {
                books@.total_stock()
            }),
        decreases goods.len() - k,
    {
        proof {
            crate::numeric::lemma_prefix_total(books@.stocks());
        }
        stock_units = stock_units + books.total_stock(goods[k]);
        k = k + 1;
    }
    TickRow {
        tick: world.tick,
        total_money_cents: books.total_money().cents(),
        firm_cash_cents: books.firm_cash_total().cents(),
        stock_units,
        headcount: books.total_headcount(),
        transactions: books.transactions_this_tick(),
        rng_draws: world.draws_this_tick,
        activation_digest: world.activation_digest,
        postings: books.journal().len() as u32,
    }
}

/// One tick: shuffle the activation orders, then run the nine phases in
/// order. The invariant phase returns the first violation and stops the
/// tick there, so a violating tick is never logged; otherwise the log phase
/// hands the tick's row to the sink.
#[verifier::loop_isolation(false)]
pub fn tick<S: Sink>(
    world: &mut World,
    books: &Books,
    rngs: &mut Rngs,
    checks: &CheckSet,
    sink: &mut S,
) -> (r: Result<(), Violation>)
    requires
        old(world).tick < 0x100_0000,
        tick_keys_free(old(rngs).opened(), old(world).tick as int),
        old(world).households@.len() + old(world).firms.spec_len() <= u32::MAX,
        old(world).firms.wf(),
        books.inv(),
        loggable(books@),
    ensures
        r == run_outcome(checks@, books@, old(world).tick),
        final(world).tick == old(world).tick,
        final(world).households == old(world).households,
        final(world).firms == old(world).firms,
        final(world).household_order@ == activation_order(
            old(rngs)@,
            old(world).tick,
            Purpose::ActivationOrderHouseholds,
            old(world).households@.len(),
        ),
        final(world).firm_order@ == activation_order(
            old(rngs)@,
            old(world).tick,
            Purpose::ActivationOrderFirms,
            old(world).firms.spec_len(),
        ),
        final(world).draws_this_tick == full_pass(old(world).households@.len()) + full_pass(
            old(world).firms.spec_len(),
        ),
        final(world).activation_digest == order_digest_value(
            final(world).household_order@,
            final(world).firm_order@,
        ),
        final(sink).keeps() == old(sink).keeps(),
        old(sink).keeps() ==> final(sink).events() == old(sink).events()
            && final(sink).provenance_rows() == old(sink).provenance_rows()
            && final(sink).rows() == (if r is Ok {
            old(sink).rows().push(tick_row_of(books@, *final(world)))
        } else {
            old(sink).rows()
        }),
        final(rngs)@ == old(rngs)@,
        final(rngs).opened() == after_shuffle(old(rngs).opened(), old(world).tick),
{
    shuffle_activation(world, rngs);
    let ghost shuffled = *world;
    let table = phases();
    let mut i: usize = 0;
    while i < table.len()
        invariant
            table@.len() == all_phases().len(),
            forall|j: int| 0 <= j < table@.len() ==> (#[trigger] table@[j]).0 == all_phases()[j],
            i <= table@.len(),
            i > 7 ==> run_outcome(checks@, books@, world.tick) == Ok::<(), Violation>(()),
            books.inv(),
            loggable(books@),
            *world == shuffled,
            sink.keeps() == old(sink).keeps(),
            old(sink).keeps() ==> sink.events() == old(sink).events()
                && sink.provenance_rows() == old(sink).provenance_rows()
                && sink.rows() == (if i > 8 {
                old(sink).rows().push(tick_row_of(books@, *world))
            } else {
                old(sink).rows()
            }),
        decreases table.len() - i,
    {
        let (id, _name) = table[i];
        match id {
            PhaseId::Invariants => {
                let outcome = checks.run(books, world.tick);
                match outcome {
                    Err(violation) => {
                        return Err(violation);
                    },
                    Ok(()) => {
                        proof {
                            lemma_ok_is_unit(outcome);
                        }
                    },
                }
            },
            PhaseId::Log => {
                let row = log_row(books, world);
                sink.tick_row(row);
            },
            _ => {},
        }
        i = i + 1;
    }
    Ok(())
}

/// The outcome of running ticks `t` to `ticks - 1` on books that open as
/// `v`: each tick checked on the books as that tick sees them, the first
/// violation ending the run.
pub open spec fn run_from(ids: Seq<crate::invariants::CheckId>, v: BooksView, t: int, ticks: int) -> Result<
    (),
    Violation,
>
    decreases ticks - t,
{
    if t < 0 || t >= ticks {
        Ok(())
    } else {
        match run_outcome(ids, if t == 0 {
            v
        } else {
            v.after_tick()
        }, t as u32) {
            Err(e) => Err(e),
            Ok(()) => run_from(ids, v, t + 1, ticks),
        }
    }
}

/// Run `ticks` ticks from tick zero, closing each tick's books after it.
/// The opening endowment of every account goes to the sink's event stream
/// first, so even a run of no ticks records it. The first violation stops
/// the run and is returned; the books are left as the violating tick saw
/// them.
#[verifier::rlimit(40)]
pub fn run<S: Sink>(
    world: &mut World,
    books: &mut Books,
    rngs: &mut Rngs,
    checks: &CheckSet,
    sink: &mut S,
    ticks: u32,
) -> (r: Result<(), Violation>)
    requires
        ticks <= 0x100_0000,
        activation_keys_free(old(rngs).opened(), 0, ticks as int),
        old(world).households@.len() + old(world).firms.spec_len() <= u32::MAX,
        old(world).firms.wf(),
        old(books).inv(),
        loggable(old(books)@),
    ensures
        r == run_from(checks@, old(books)@, 0, ticks as int),
        final(books).inv(),
        r is Ok && ticks > 0 ==> final(books)@ == old(books)@.after_tick(),
        r is Err ==> final(books)@ == books_at(old(books)@, completed(checks@, old(books)@, 0, ticks as int)),
        ticks == 0 ==> *final(world) == *old(world),
        ticks > 0 ==> final(world).tick == (if r is Ok {
            ticks - 1
        } else {
            completed(checks@, old(books)@, 0, ticks as int)
        }),
        final(world).households == old(world).households,
        final(world).firms == old(world).firms,
        final(sink).keeps() == old(sink).keeps(),
        old(sink).keeps() ==> {
            &&& endowment_appended(old(sink).events(), final(sink).events(), old(books)@)
            &&& final(sink).provenance_rows() == old(sink).provenance_rows()
            &&& final(sink).rows() == old(sink).rows() + rows_upto(
                old(rngs)@,
                old(books)@,
                old(world).households@.len(),
                old(world).firms.spec_len(),
                completed(checks@, old(books)@, 0, ticks as int),
            )
        },
        final(rngs)@ == old(rngs)@,
{
    let ghost v = books@;
    let ghost h = world.households@.len();
    let ghost f = world.firms.spec_len();
    let events = endowment_events(books, 0);
    let ghost all = events@;
    let ghost before = sink.events();
    for event in it: events.into_iter()
        invariant
            it.seq() == all,
            sink.keeps() == old(sink).keeps(),
            old(sink).keeps() ==> sink.events() == before + all.take(it.index() as int)
                && sink.rows() == old(sink).rows()
                && sink.provenance_rows() == old(sink).provenance_rows(),
    {
        proof {
            assert(all.take(it.index() + 1) =~= all.take(it.index() as int).push(event));
        }
        sink.event(event);
    }
    proof {
        assert(all.take(all.len() as int) =~= all);
    }
    let ghost endowed = sink.events();
    assert(old(sink).keeps() ==> endowment_appended(old(sink).events(), endowed, v)) by {
        reveal(endowment_appended);
    }
    let mut number: u32 = 0;
    proof {
        crate::books::law_end_of_tick_keeps_the_books(v);
    }
    while number < ticks
        invariant
            number <= ticks <= 0x100_0000,
            world.households@.len() == h,
            world.firms.spec_len() == f,
            world.households == old(world).households,
            world.firms == old(world).firms,
            number == 0 ==> *world == *old(world),
            number > 0 ==> world.tick == number - 1,
            h == old(world).households@.len(),
            f == old(world).firms.spec_len(),
            h + f <= u32::MAX,
            world.firms.wf(),
            books.inv(),
            loggable(books@),
            books@ == books_at(v, number as int),
            v == old(books)@,
            loggable(v.after_tick()),
            v.after_tick().after_tick() == v.after_tick(),
            run_from(checks@, v, 0, ticks as int) == run_from(checks@, v, number as int, ticks as int),
            completed(checks@, v, 0, ticks as int) == completed(checks@, v, number as int, ticks as int),
            sink.keeps() == old(sink).keeps(),
            rngs@ == old(rngs)@,
            activation_keys_free(rngs.opened(), number as int, ticks as int),
            old(sink).keeps() ==> endowment_appended(old(sink).events(), endowed, v),
            old(sink).keeps() ==> sink.events() == endowed
                && sink.provenance_rows() == old(sink).provenance_rows()
                && sink.rows() == old(sink).rows() + rows_upto(rngs@, v, h, f, number as int),
        decreases ticks - number,
    {
        world.tick = number;
        let ghost old_opened = rngs.opened();
        assert(tick_keys_free(old_opened, number as int));
        let outcome = tick(world, books, rngs, checks, sink);
        if let Err(violation) = outcome {
            proof {
                lemma_completed_stops(checks@, v, number as int, ticks as int);
                if old(sink).keeps() {
                    assert(sink.events() == endowed);
                    assert(sink.provenance_rows() == old(sink).provenance_rows());
                    assert(sink.rows() == old(sink).rows() + rows_upto(rngs@, v, h, f, number as int));
                }
            }
            return Err(violation);
        }
        proof {
            lemma_completed_steps(checks@, v, number as int, ticks as int);
            lemma_row_steps(rngs@, v, h, f, number, *world);
            lemma_later_keys_stay_free(old_opened, number, ticks as int);
            if old(sink).keeps() {
                assert(sink.rows() =~= old(sink).rows() + rows_upto(rngs@, v, h, f, number + 1));
            }
        }
        books.end_of_tick();
        number = number + 1;
    }
    Ok(())
}

/// A tick whose audit fails is where the run stops.
proof fn lemma_completed_stops(ids: Seq<crate::invariants::CheckId>, v: BooksView, n: int, ticks: int)
    requires
        0 <= n < ticks,
        run_outcome(ids, books_at(v, n), n as u32) is Err,
    ensures
        completed(ids, v, n, ticks) == n,
{
}

/// A tick whose audit passes hands the count on to the next tick.
proof fn lemma_completed_steps(ids: Seq<crate::invariants::CheckId>, v: BooksView, n: int, ticks: int)
    requires
        0 <= n < ticks,
        run_outcome(ids, books_at(v, n), n as u32) is Ok,
    ensures
        completed(ids, v, n, ticks) == completed(ids, v, n + 1, ticks),
{
}

/// The row a completed tick logs is the next row of the run.
proof fn lemma_row_steps(key: Seq<u8>, v: BooksView, h: nat, f: nat, n: u32, world: World)
    requires
        world.tick == n,
        world.draws_this_tick == full_pass(h) + full_pass(f),
        world.activation_digest == order_digest_value(
            activation_order(key, n, Purpose::ActivationOrderHouseholds, h),
            activation_order(key, n, Purpose::ActivationOrderFirms, f),
        ),
    ensures
        tick_row_of(books_at(v, n as int), world) == row_at(key, v, h, f, n),
        rows_upto(key, v, h, f, n + 1) == rows_upto(key, v, h, f, n as int).push(row_at(key, v, h, f, n)),
{
}

/// A successful outcome carries nothing but the unit value.
proof fn lemma_ok_is_unit(r: Result<(), Violation>)
    requires
        r is Ok,
    ensures
        r == Ok::<(), Violation>(()),
{
    let x: () = r->Ok_0;
    assert(x == ());
}

/// Healthy books, checked without the liveness switch, never stop a run:
/// every tick from `t` to the last passes.
pub proof fn law_healthy_books_run_to_completion(v: BooksView, t: int, ticks: int)
    requires
        crate::invariants::healthy(v),
        0 <= t,
    ensures
        run_from(crate::invariants::active_for(false), v, t, ticks) is Ok,
    decreases ticks - t,
{
    if t < ticks {
        crate::invariants::law_end_of_tick_keeps_healthy(v);
        let seen = if t == 0 {
            v
        } else {
            v.after_tick()
        };
        crate::invariants::law_healthy_books_pass_every_check_but_liveness(seen, t as u32);
        lemma_ok_is_unit(run_outcome(crate::invariants::active_for(false), seen, t as u32));
        law_healthy_books_run_to_completion(v, t + 1, ticks);
    }
}

/// With the liveness switch on, a run whose books open healthy but with
/// fewer cash transactions than the minimum halts at its first tick, with
/// the liveness violation naming that tick and the count.
pub proof fn law_an_idle_run_halts_at_its_first_tick_when_liveness_is_on(v: BooksView, ticks: int)
    requires
        crate::invariants::healthy(v),
        v.transactions < crate::invariants::MINIMUM_TRANSACTIONS_PER_TICK,
        ticks > 0,
    ensures
        run_from(crate::invariants::active_for(true), v, 0, ticks) == Err::<(), Violation>(
            Violation::Liveness {
                tick: 0,
                counted: v.transactions,
                required: crate::invariants::MINIMUM_TRANSACTIONS_PER_TICK,
            },
        ),
{
    crate::invariants::law_healthy_books_pass_every_check_but_liveness(v, 0);
}

} // verus!
