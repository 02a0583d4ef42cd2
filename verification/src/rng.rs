//! The one seeded generator, and the sub-stream facade that keeps draw sites
//! independent of one another.
//!
//! One master 32-byte key. Every draw site opens a short-lived [`Stream`]
//! addressed by a `u64` nonce that packs `(tick, agent, purpose)` as
//! `tick:24 | agent:24 | purpose:16`, high bits to low. The packing is
//! injective, so distinct tuples select distinct keystreams by arithmetic.
//! Selecting a stream resets its word position, so a sub-stream's output does
//! not depend on how many draws any other sub-stream took.
//!
//! The words themselves come from ChaCha8; what this module proves is what
//! it does with them: the scaling into a range, the coin, and the two
//! permutations, whatever words came back.

use vstd::prelude::*;
use vstd::multiset::Multiset;
use rand::rngs::ChaCha8Rng;
use rand::{Rng, SeedableRng};

verus! {

broadcast use vstd::seq_lib::group_to_multiset_ensures, vstd::multiset::group_multiset_axioms;

/// Width of the `tick` field of the sub-stream key, in bits.
pub const TICK_BITS: u32 = 24;

/// Width of the `agent` field of the sub-stream key, in bits.
pub const AGENT_BITS: u32 = 24;

/// Width of the `purpose` field of the sub-stream key, in bits.
pub const PURPOSE_BITS: u32 = 16;

/// What a sub-stream is for. Each purpose has a fixed, non-zero code,
/// gapped in tens per subsystem; a code is never renumbered or reused.
#[derive(Debug, Clone, Copy, PartialEq, Eq, PartialOrd, Ord, Hash, Structural)]
pub enum Purpose {
    /// The spine probe. Not a behaviour draw site.
    TracerProbe,
    /// Household activation order for the tick.
    ActivationOrderHouseholds,
    /// Firm activation order for the tick.
    ActivationOrderFirms,
    /// Which firms a household visits in the labour market.
    LabourSample,
    /// Whether an already-employed household searches this tick.
    EmployedSearchCoin,
    /// Which firms a household visits in the goods market.
    GoodsSample,
    /// Whether a household revises its preferred supplier.
    SupplierRevision,
    /// Whether a firm leaves its price unchanged this tick.
    PriceInactionCoin,
    /// The size of a firm's price revision.
    PriceStep,
    /// The size of a firm's wage revision.
    WageStep,
    /// A firm's initial planning offset.
    PlanningOffsetInit,
    /// Which owner a bankrupt firm's residual goes to.
    BankruptcyOwnerDraw,
}

/// The fixed code of a purpose.
pub open spec fn purpose_code(p: Purpose) -> u16 {
    match p {
        Purpose::TracerProbe => 1,
        Purpose::ActivationOrderHouseholds => 10,
        Purpose::ActivationOrderFirms => 11,
        Purpose::LabourSample => 20,
        Purpose::EmployedSearchCoin => 21,
        Purpose::GoodsSample => 30,
        Purpose::SupplierRevision => 31,
        Purpose::PriceInactionCoin => 40,
        Purpose::PriceStep => 41,
        Purpose::WageStep => 42,
        Purpose::PlanningOffsetInit => 43,
        Purpose::BankruptcyOwnerDraw => 50,
    }
}

/// Every purpose, in declaration order.
pub open spec fn every_purpose() -> Seq<Purpose> {
    seq![
        Purpose::TracerProbe,
        Purpose::ActivationOrderHouseholds,
        Purpose::ActivationOrderFirms,
        Purpose::LabourSample,
        Purpose::EmployedSearchCoin,
        Purpose::GoodsSample,
        Purpose::SupplierRevision,
        Purpose::PriceInactionCoin,
        Purpose::PriceStep,
        Purpose::WageStep,
        Purpose::PlanningOffsetInit,
        Purpose::BankruptcyOwnerDraw,
    ]
}

impl Purpose {
    /// The purpose's fixed code, the low field of its sub-stream key.
    pub fn discriminant(self) -> (d: u16)
        ensures
            d == purpose_code(self),
    {
        match self {
            Purpose::TracerProbe => 1,
            Purpose::ActivationOrderHouseholds => 10,
            Purpose::ActivationOrderFirms => 11,
            Purpose::LabourSample => 20,
            Purpose::EmployedSearchCoin => 21,
            Purpose::GoodsSample => 30,
            Purpose::SupplierRevision => 31,
            Purpose::PriceInactionCoin => 40,
            Purpose::PriceStep => 41,
            Purpose::WageStep => 42,
            Purpose::PlanningOffsetInit => 43,
            Purpose::BankruptcyOwnerDraw => 50,
        }
    }
}

/// Every purpose, in declaration order.
pub fn all_purposes() -> (ps: Vec<Purpose>)
    ensures
        ps@ == every_purpose(),
{
    let mut ps: Vec<Purpose> = Vec::new();
    ps.push(Purpose::TracerProbe);
    ps.push(Purpose::ActivationOrderHouseholds);
    ps.push(Purpose::ActivationOrderFirms);
    ps.push(Purpose::LabourSample);
    ps.push(Purpose::EmployedSearchCoin);
    ps.push(Purpose::GoodsSample);
    ps.push(Purpose::SupplierRevision);
    ps.push(Purpose::PriceInactionCoin);
    ps.push(Purpose::PriceStep);
    ps.push(Purpose::WageStep);
    ps.push(Purpose::PlanningOffsetInit);
    ps.push(Purpose::BankruptcyOwnerDraw);
    assert(ps@ =~= every_purpose());
    ps
}

/// Every purpose has a non-zero code, and no two purposes share one.
pub proof fn law_purpose_codes_are_distinct_and_non_zero(p: Purpose, q: Purpose)
    ensures
        purpose_code(p) != 0,
        purpose_code(p) == purpose_code(q) ==> p == q,
{
}

/// The sub-stream key of `(tick, agent, purpose)`: the tick in the top 24
/// bits, the agent in the next 24, the purpose's code in the low 16.
pub open spec fn stream_key(tick: u32, agent: u32, p: Purpose) -> int {
    tick * 0x100_0000_0000 + agent * 0x1_0000 + purpose_code(p)
}

/// Pack `(tick, agent, purpose)` into a sub-stream key. Both fields must fit
/// their widths.
pub fn pack_stream_key(tick: u32, agent: u32, p: Purpose) -> (key: u64)
    requires
        tick < 0x100_0000,
        agent < 0x100_0000,
    ensures
        key == stream_key(tick, agent, p),
{
    let t = tick as u64;
    let a = agent as u64;
    let c = p.discriminant() as u64;
    let key = (t << 40u64) | (a << 16u64) | c;
    assert(key == t * 0x100_0000_0000 + a * 0x1_0000 + c) by (bit_vector)
        requires
            t < 0x100_0000,
            a < 0x100_0000,
            c < 0x1_0000,
            key == (t << 40u64) | (a << 16u64) | c,
    ;
    key
}

/// Distinct `(tick, agent, purpose)` tuples, each field within its width,
/// pack to distinct keys.
pub proof fn law_pack_stream_key_is_injective(
    t1: u32,
    a1: u32,
    p1: Purpose,
    t2: u32,
    a2: u32,
    p2: Purpose,
)
    requires
        t1 < 0x100_0000,
        a1 < 0x100_0000,
        t2 < 0x100_0000,
        a2 < 0x100_0000,
        stream_key(t1, a1, p1) == stream_key(t2, a2, p2),
    ensures
        t1 == t2,
        a1 == a2,
        p1 == p2,
{
    let c1 = purpose_code(p1) as int;
    let c2 = purpose_code(p2) as int;
    let low1 = a1 * 0x1_0000 + c1;
    let low2 = a2 * 0x1_0000 + c2;
    assert(0 <= low1 < 0x100_0000_0000) by (nonlinear_arith)
        requires
            a1 < 0x100_0000,
            0 <= c1 < 0x1_0000,
            low1 == a1 * 0x1_0000 + c1,
    ;
    assert(0 <= low2 < 0x100_0000_0000) by (nonlinear_arith)
        requires
            a2 < 0x100_0000,
            0 <= c2 < 0x1_0000,
            low2 == a2 * 0x1_0000 + c2,
    ;
    assert(t1 == t2) by (nonlinear_arith)
        requires
            t1 * 0x100_0000_0000 + low1 == t2 * 0x100_0000_0000 + low2,
            0 <= low1 < 0x100_0000_0000,
            0 <= low2 < 0x100_0000_0000,
    ;
    assert(a1 == a2) by (nonlinear_arith)
        requires
            a1 * 0x1_0000 + c1 == a2 * 0x1_0000 + c2,
            0 <= c1 < 0x1_0000,
            0 <= c2 < 0x1_0000,
    ;
}

/// The value a 64-bit word scales to in `0..n`: the high half of the
/// 128-bit product `word · n`.
pub open spec fn scaled_below(word: u64, n: u64) -> int {
    (word * n) / 0x1_0000_0000_0000_0000
}

/// Scale a 64-bit word into `0..n` by the widening multiply: unbiased up to
/// one part in 2^64 and exactly one word per value.
pub fn scale_below(word: u64, n: u64) -> (r: u64)
    ensures
        r == scaled_below(word, n),
        n > 0 ==> r < n,
{
    assert((word as int) * (n as int) < 0x1_0000_0000_0000_0000_0000_0000_0000_0000) by (nonlinear_arith)
        requires
            word < 0x1_0000_0000_0000_0000,
            n < 0x1_0000_0000_0000_0000,
    ;
    let product: u128 = (word as u128) * (n as u128);
    let high = product >> 64u128;
    assert(high == product / 0x1_0000_0000_0000_0000) by (bit_vector)
        requires
            high == product >> 64u128,
    ;
    assert(product < 0x1_0000_0000_0000_0000 * (n as int) || n == 0) by (nonlinear_arith)
        requires
            product == word * n,
            word < 0x1_0000_0000_0000_0000,
    ;
    assert(product / 0x1_0000_0000_0000_0000 <= n) by (nonlinear_arith)
        requires
            product == word * n,
            word < 0x1_0000_0000_0000_0000,
    ;
    assert(n > 0 ==> product / 0x1_0000_0000_0000_0000 < n) by (nonlinear_arith)
        requires
            product == word * n,
            word < 0x1_0000_0000_0000_0000,
    ;
    high as u64
}

/// The 64-bit word `Rng::next_u64` returns from a `ChaCha8Rng` of the
/// `rand` crate keyed by `key`, with keystream `stream` selected, positioned
/// at 32-bit word `word_pos` of that keystream.
pub uninterp spec fn chacha8_u64(key: Seq<u8>, stream: u64, word_pos: u128) -> u64;

/// One keystream word: a `ChaCha8Rng` built by `SeedableRng::from_seed` from
/// `key`, `set_stream(stream)`, `set_word_pos(word_pos)`, then one
/// `Rng::next_u64`. The word is a function of the three arguments alone; which
/// word it is, ChaCha8 decides, and nothing here states it.
#[verifier::external_body]
fn keystream_u64(key: [u8; 32], stream: u64, word_pos: u128) -> (word: u64)
    ensures
        word == chacha8_u64(key@, stream, word_pos),
{
    let mut generator = ChaCha8Rng::from_seed(key);
    generator.set_stream(stream);
    generator.set_word_pos(word_pos);
    generator.next_u64()
}

/// The `i`-th 64-bit draw of the sub-stream keyed `key` with keystream `id`:
/// the word that starts at 32-bit offset `2 i`, as a generator reading the
/// keystream from its start returns it on its `i`-th call.
pub open spec fn stream_word(key: Seq<u8>, id: u64, i: int) -> u64 {
    chacha8_u64(key, id, (2 * i) as u128)
}

/// One Fisher-Yates step at position `i`: entry `i` swapped with the entry
/// that `word`, scaled into the remaining `len - i` positions, picks from
/// `i..len`.
pub open spec fn swap_step(pool: Seq<u32>, i: int, word: u64) -> Seq<u32> {
    let j = i + scaled_below(word, (pool.len() - i) as u64);
    pool.update(i, pool[j]).update(j, pool[i])
}

/// `pool` after the first `steps` positions of a Fisher-Yates pass whose
/// draws are the sub-stream's words from the `first`-th on.
pub open spec fn fisher_yates(pool: Seq<u32>, key: Seq<u8>, id: u64, first: int, steps: nat) -> Seq<u32>
    decreases steps,
{
    if steps == 0 {
        pool
    } else {
        swap_step(
            fisher_yates(pool, key, id, first, (steps - 1) as nat),
            steps - 1,
            stream_word(key, id, first + steps - 1),
        )
    }
}

/// The master key a seed of record expands to: its eight little-endian bytes,
/// then zeros.
pub open spec fn master_key(seed: u64) -> Seq<u8> {
    Seq::new(32, |i: int| if i < 8 { ((seed as nat / pow256(i)) % 256) as u8 } else { 0u8 })
}

/// 256 to the power `i`.
pub open spec fn pow256(i: int) -> nat
    decreases i,
{
    if i <= 0 {
        1
    } else {
        256 * pow256(i - 1)
    }
}

/// A seed is the little-endian reading of its own eight bytes.
proof fn lemma_seed_from_its_bytes(s: u64)
    ensures
        s == (s % 0x100) + 0x100 * ((s / 0x100) % 0x100) + 0x1_0000 * ((s / 0x1_0000) % 0x100) + 0x100_0000
            * ((s / 0x100_0000) % 0x100) + 0x1_0000_0000 * ((s / 0x1_0000_0000) % 0x100) + 0x100_0000_0000 * ((s
            / 0x100_0000_0000) % 0x100) + 0x1_0000_0000_0000 * ((s / 0x1_0000_0000_0000) % 0x100)
            + 0x100_0000_0000_0000 * ((s / 0x100_0000_0000_0000) % 0x100),
{
    assert(s == (s % 0x100) + 0x100 * ((s / 0x100) % 0x100) + 0x1_0000 * ((s / 0x1_0000) % 0x100) + 0x100_0000
        * ((s / 0x100_0000) % 0x100) + 0x1_0000_0000 * ((s / 0x1_0000_0000) % 0x100) + 0x100_0000_0000 * ((s
        / 0x100_0000_0000) % 0x100) + 0x1_0000_0000_0000 * ((s / 0x1_0000_0000_0000) % 0x100)
        + 0x100_0000_0000_0000 * ((s / 0x100_0000_0000_0000) % 0x100)) by (bit_vector);
}

/// The master key carries the whole seed: its first eight bytes read
/// little-endian give the seed back, so two different seeds key two
/// different generators, seeds past 32 bits included.
pub proof fn law_master_key_spells_the_seed(s1: u64, s2: u64)
    ensures
        master_key(s1).len() == 32,
        master_key(s1)[0] + 0x100 * master_key(s1)[1] + 0x1_0000 * master_key(s1)[2] + 0x100_0000 * master_key(
            s1,
        )[3] + 0x1_0000_0000 * master_key(s1)[4] + 0x100_0000_0000 * master_key(s1)[5] + 0x1_0000_0000_0000
            * master_key(s1)[6] + 0x100_0000_0000_0000 * master_key(s1)[7] == s1,
        master_key(s1) == master_key(s2) ==> s1 == s2,
{
    reveal_with_fuel(pow256, 9);
    assert(pow256(0) == 1 && pow256(1) == 0x100 && pow256(2) == 0x1_0000 && pow256(3) == 0x100_0000);
    assert(pow256(4) == 0x1_0000_0000 && pow256(5) == 0x100_0000_0000);
    assert(pow256(6) == 0x1_0000_0000_0000 && pow256(7) == 0x100_0000_0000_0000);
    lemma_seed_from_its_bytes(s1);
    lemma_seed_from_its_bytes(s2);
    let k1 = master_key(s1);
    let k2 = master_key(s2);
    assert(k1[0] == s1 % 0x100);
    assert(k1[1] == (s1 / 0x100) % 0x100);
    assert(k1[2] == (s1 / 0x1_0000) % 0x100);
    assert(k1[3] == (s1 / 0x100_0000) % 0x100);
    assert(k1[4] == (s1 / 0x1_0000_0000) % 0x100);
    assert(k1[5] == (s1 / 0x100_0000_0000) % 0x100);
    assert(k1[6] == (s1 / 0x1_0000_0000_0000) % 0x100);
    assert(k1[7] == (s1 / 0x100_0000_0000_0000) % 0x100);
    assert(k2[0] == s2 % 0x100);
    assert(k2[1] == (s2 / 0x100) % 0x100);
    assert(k2[2] == (s2 / 0x1_0000) % 0x100);
    assert(k2[3] == (s2 / 0x100_0000) % 0x100);
    assert(k2[4] == (s2 / 0x1_0000_0000) % 0x100);
    assert(k2[5] == (s2 / 0x100_0000_0000) % 0x100);
    assert(k2[6] == (s2 / 0x1_0000_0000_0000) % 0x100);
    assert(k2[7] == (s2 / 0x100_0000_0000_0000) % 0x100);
}

/// The run's generator: one master key, from which every sub-stream is
/// keyed, and the sub-stream keys opened so far.
pub struct Rngs {
    master: [u8; 32],
    opened: Ghost<Set<int>>,
}

impl View for Rngs {
    type V = Seq<u8>;

    closed spec fn view(&self) -> Seq<u8> {
        self.master@
    }
}

impl Rngs {
    /// The sub-stream keys opened so far. Each key is opened at most once: a
    /// second opening would replay the first sub-stream's draws.
    pub closed spec fn opened(&self) -> Set<int> {
        self.opened@
    }

    /// The generator for a seed of record: the seed's little-endian bytes,
    /// zero-padded to the 32-byte key. Seed zero is a legal seed.
    pub fn new(master_seed: u64) -> (r: Rngs)
        ensures
            r@ == master_key(master_seed),
            r.opened() == Set::<int>::empty(),
    {
        let mut master = [0u8; 32];
        let mut rest = master_seed;
        let mut i: usize = 0;
        assert(pow256(0) == 1);
        while i < 8
            invariant
                i <= 8,
                master@.len() == 32,
                rest == master_seed as nat / pow256(i as int),
                forall|k: int| 0 <= k < i ==> master@[k] == ((master_seed as nat / pow256(k)) % 256) as u8,
                forall|k: int| i <= k < 32 ==> master@[k] == 0,
            decreases 8 - i,
        {
            master[i] = (rest % 256) as u8;
            proof {
                assert(pow256(i + 1) == 256 * pow256(i as int));
                assert(pow256(i as int) > 0) by {
                    lemma_pow256_positive(i as int);
                }
                lemma_div_div(master_seed as int, pow256(i as int) as int, 256);
            }
            rest = rest / 256;
            i = i + 1;
        }
        let r = Rngs { master, opened: Ghost(Set::empty()) };
        assert(r@ =~= master_key(master_seed));
        r
    }

    /// Open the sub-stream for `(tick, agent, purpose)`: the master key with
    /// that tuple's packed key as its keystream, read from word zero, with no
    /// draws taken. The key must not have been opened before; it is opened
    /// from here on.
    pub fn stream(&mut self, tick: u32, agent: u32, p: Purpose) -> (s: Stream)
        requires
            tick < 0x100_0000,
            agent < 0x100_0000,
            !old(self).opened().contains(stream_key(tick, agent, p)),
        ensures
            final(self)@ == old(self)@,
            final(self).opened() == old(self).opened().insert(stream_key(tick, agent, p)),
            s.keyed() == old(self)@,
            s.selected() == stream_key(tick, agent, p),
            s.draws_taken() == 0,
    {
        let id = pack_stream_key(tick, agent, p);
        self.opened = Ghost(self.opened@.insert(stream_key(tick, agent, p)));
        Stream { key: self.master, id, draws: 0 }
    }
}

proof fn lemma_pow256_positive(i: int)
    ensures
        pow256(i) > 0,
    decreases i,
{
    if i > 0 {
        lemma_pow256_positive(i - 1);
    }
}

proof fn lemma_div_div(x: int, d: int, e: int)
    requires
        x >= 0,
        d > 0,
        e > 0,
    ensures
        x / d / e == x / (d * e),
{
    vstd::arithmetic::div_mod::lemma_div_denominator(x, d, e);
}

/// One short-lived sub-stream: the master key, the keystream its packed key
/// selects, and the number of draws taken from it.
pub struct Stream {
    key: [u8; 32],
    id: u64,
    draws: u32,
}

impl Stream {
    /// The master key the sub-stream is keyed by.
    pub closed spec fn keyed(&self) -> Seq<u8> {
        self.key@
    }

    /// The keystream the sub-stream reads.
    pub closed spec fn selected(&self) -> u64 {
        self.id
    }

    /// The number of draws taken so far.
    pub closed spec fn draws_taken(&self) -> u32 {
        self.draws
    }

    /// The sub-stream's next draw, as a word.
    pub open spec fn next_word(&self) -> u64 {
        stream_word(self.keyed(), self.selected(), self.draws_taken() as int)
    }

    /// A value in `0..n`: the sub-stream's next word scaled by the widening
    /// multiply. Counts one draw.
    pub fn below(&mut self, n: u64) -> (r: u64)
        requires
            n > 0,
            old(self).draws_taken() < u32::MAX,
        ensures
            r == scaled_below(old(self).next_word(), n),
            r < n,
            final(self).keyed() == old(self).keyed(),
            final(self).selected() == old(self).selected(),
            final(self).draws_taken() == old(self).draws_taken() + 1,
    {
        let word = keystream_u64(self.key, self.id, (self.draws as u128) * 2);
        self.draws = self.draws + 1;
        scale_below(word, n)
    }

    /// A coin that lands true with probability `p_ppm` parts per million: a
    /// draw below one million compared with `p_ppm`. Counts one draw.
    pub fn coin_ppm(&mut self, p_ppm: u32) -> (b: bool)
        requires
            old(self).draws_taken() < u32::MAX,
        ensures
            b == (scaled_below(old(self).next_word(), 1_000_000) < p_ppm),
            final(self).keyed() == old(self).keyed(),
            final(self).selected() == old(self).selected(),
            final(self).draws_taken() == old(self).draws_taken() + 1,
    {
        self.below(1_000_000) < p_ppm as u64
    }

    /// Draw `k` distinct positions of `pool` without replacement, by a
    /// partial Fisher-Yates shuffle: `pool` ends a permutation of itself whose
    /// first `k` entries are the sample, in draw order. Counts `k` draws.
    pub fn sample_k(&mut self, pool: &mut [u32], k: usize) -> (out: Vec<u32>)
        requires
            k <= old(pool)@.len(),
            old(self).draws_taken() + k <= u32::MAX,
        ensures
            final(pool)@ == fisher_yates(
                old(pool)@,
                old(self).keyed(),
                old(self).selected(),
                old(self).draws_taken() as int,
                k as nat,
            ),
            final(pool)@.to_multiset() == old(pool)@.to_multiset(),
            final(pool)@.len() == old(pool)@.len(),
            out@ == final(pool)@.take(k as int),
            final(self).keyed() == old(self).keyed(),
            final(self).selected() == old(self).selected(),
            final(self).draws_taken() == old(self).draws_taken() + k,
    {
        let n = pool.len();
        let mut out: Vec<u32> = Vec::new();
        let mut i: usize = 0;
        while i < k
            invariant
                i <= k <= n,
                pool@.len() == n,
                n == old(pool)@.len(),
                pool@ == fisher_yates(
                    old(pool)@,
                    old(self).keyed(),
                    old(self).selected(),
                    old(self).draws_taken() as int,
                    i as nat,
                ),
                pool@.to_multiset() == old(pool)@.to_multiset(),
                out@ == pool@.take(i as int),
                self.keyed() == old(self).keyed(),
                self.selected() == old(self).selected(),
                self.draws_taken() == old(self).draws_taken() + i,
                old(self).draws_taken() + k <= u32::MAX,
            decreases k - i,
        {
            let j = i + self.below((n - i) as u64) as usize;
            swap_entries(pool, i, j);
            out.push(pool[i]);
            i = i + 1;
            assert(out@ =~= pool@.take(i as int));
        }
        out
    }

    /// Shuffle `pool` in place by Fisher-Yates: it ends a permutation of
    /// itself. Counts one draw per position but the last.
    pub fn shuffle_in_place(&mut self, pool: &mut [u32])
        requires
            old(self).draws_taken() + old(pool)@.len() <= u32::MAX,
        ensures
            final(pool)@ == fisher_yates(
                old(pool)@,
                old(self).keyed(),
                old(self).selected(),
                old(self).draws_taken() as int,
                full_pass(old(pool)@.len()),
            ),
            final(pool)@.to_multiset() == old(pool)@.to_multiset(),
            final(pool)@.len() == old(pool)@.len(),
            final(self).keyed() == old(self).keyed(),
            final(self).selected() == old(self).selected(),
            final(self).draws_taken() == old(self).draws_taken() + full_pass(old(pool)@.len()),
    {
        let n = pool.len();
        let last = if n == 0 {
            0
        } else {
            n - 1
        };
        let mut i: usize = 0;
        while i < last
            invariant
                i <= last,
                last == full_pass(n as nat),
                pool@.len() == n,
                n == old(pool)@.len(),
                pool@ == fisher_yates(
                    old(pool)@,
                    old(self).keyed(),
                    old(self).selected(),
                    old(self).draws_taken() as int,
                    i as nat,
                ),
                pool@.to_multiset() == old(pool)@.to_multiset(),
                self.keyed() == old(self).keyed(),
                self.selected() == old(self).selected(),
                self.draws_taken() == old(self).draws_taken() + i,
                old(self).draws_taken() + n <= u32::MAX,
            decreases last - i,
        {
            let j = i + self.below((n - i) as u64) as usize;
            swap_entries(pool, i, j);
            i = i + 1;
        }
    }

    /// The number of draws taken so far.
    pub fn draws(&self) -> (d: u32)
        ensures
            d == self.draws_taken(),
    {
        self.draws
    }
}

/// The positions a full Fisher-Yates pass over `n` entries draws for: every
/// one but the last.
pub open spec fn full_pass(n: nat) -> nat {
    if n == 0 {
        0
    } else {
        (n - 1) as nat
    }
}

/// Exchange two entries of `pool`; the entries, as a multiset, stay the same.
fn swap_entries(pool: &mut [u32], i: usize, j: usize)
    requires
        i < old(pool)@.len(),
        j < old(pool)@.len(),
    ensures
        final(pool)@ == old(pool)@.update(i as int, old(pool)@[j as int]).update(
            j as int,
            old(pool)@[i as int],
        ),
        final(pool)@.to_multiset() == old(pool)@.to_multiset(),
{
    let a = pool[i];
    let b = pool[j];
    pool[i] = b;
    pool[j] = a;
    proof {
        let s = old(pool)@;
        let m = s.to_multiset();
        if i != j {
            vstd::seq_lib::to_multiset_update(s, i as int, b);
            let s1 = s.update(i as int, b);
            vstd::seq_lib::to_multiset_update(s1, j as int, a);
            assert(s1[j as int] == b);
            assert(m.count(a) > 0) by {
                vstd::seq_lib::to_multiset_contains(s, a);
                assert(s.contains(a)) by {
                    assert(s[i as int] == a);
                }
            }
            assert(m.insert(b).remove(a).insert(a).remove(b) =~= m);
        } else {
            assert(pool@ =~= s);
        }
    }
}

} // verus!
