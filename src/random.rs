//! Seeded, reproducible randomness.
//!
//! A `DeterministicRng` wraps a Xoshiro256** generator. Every draw is stated as
//! a function of the generator's state before the call, so two generators
//! built from the same seed and driven by the same calls return the same
//! values.

use rand::seq::SliceRandom;
use rand::{Rng, SeedableRng};
use rand_xoshiro::Xoshiro256StarStar;
use vstd::prelude::*;

verus! {

#[verifier::external_type_specification]
#[verifier::external_body]
pub struct ExXoshiro256StarStar(Xoshiro256StarStar);

/// Probabilities are given in parts per million: `PROBABILITY_SCALE` is certainty.
pub const PROBABILITY_SCALE: u32 = 1_000_000;

/// The generator state that `seed_from_u64` derives from a seed.
pub uninterp spec fn xoshiro_seeded(seed: u64) -> Xoshiro256StarStar;

/// `Rng::gen::<u64>` in state `g`: the value and the state after.
pub uninterp spec fn xoshiro_next(g: Xoshiro256StarStar) -> (u64, Xoshiro256StarStar);

/// `Rng::gen_range(lo..hi)` in state `g`: the value and the state after.
pub uninterp spec fn xoshiro_draw_range(g: Xoshiro256StarStar, lo: u64, hi: u64) -> (u64, Xoshiro256StarStar);

/// `Rng::gen_range(lo..=hi)` in state `g`: the value and the state after.
pub uninterp spec fn xoshiro_draw_range_incl(g: Xoshiro256StarStar, lo: u64, hi: u64) -> (u64, Xoshiro256StarStar);

/// `Rng::gen_ratio(n, d)` in state `g`: the outcome and the state after.
pub uninterp spec fn xoshiro_trial(g: Xoshiro256StarStar, n: u32, d: u32) -> (bool, Xoshiro256StarStar);

/// `SliceRandom::choose` on a slice of length `len` in state `g`: the index
/// picked and the state after.
pub uninterp spec fn xoshiro_pick(g: Xoshiro256StarStar, len: nat) -> (int, Xoshiro256StarStar);

/// `SliceRandom::shuffle` on a slice of length `len` in state `g`: the
/// permutation applied (position `i` of the result holds what position
/// `perm[i]` held) and the state after.
pub uninterp spec fn xoshiro_permute(g: Xoshiro256StarStar, len: nat) -> (Seq<int>, Xoshiro256StarStar);

/// `perm` lists each index below `len` exactly once.
pub open spec fn is_permutation(perm: Seq<int>, len: nat) -> bool {
    &&& perm.len() == len
    &&& forall|i: int| 0 <= i < len ==> 0 <= #[trigger] perm[i] < len
    &&& forall|i: int, j: int| 0 <= i < j < len ==> perm[i] != perm[j]
}

/// Relies on `SeedableRng::seed_from_u64` for Xoshiro256**: the state depends
/// on the seed alone.
#[verifier::external_body]
fn xoshiro_from_seed(seed: u64) -> (g: Xoshiro256StarStar)
    ensures
        g == xoshiro_seeded(seed),
{
    Xoshiro256StarStar::seed_from_u64(seed)
}

/// Relies on `Rng::gen::<u64>`: one output, a function of the state.
#[verifier::external_body]
fn xoshiro_next_u64(g: &mut Xoshiro256StarStar) -> (r: u64)
    ensures
        r == xoshiro_next(*old(g)).0,
        *final(g) == xoshiro_next(*old(g)).1,
{
    g.gen::<u64>()
}

/// Relies on `Rng::gen_range` over `lo..hi`, which panics on an empty range
/// and otherwise returns a value inside it.
#[verifier::external_body]
fn xoshiro_gen_range(g: &mut Xoshiro256StarStar, lo: u64, hi: u64) -> (r: u64)
    requires
        lo < hi,
    ensures
        r == xoshiro_draw_range(*old(g), lo, hi).0,
        *final(g) == xoshiro_draw_range(*old(g), lo, hi).1,
        lo <= r < hi,
{
    g.gen_range(lo..hi)
}

/// Relies on `Rng::gen_range` over `lo..=hi`, which panics on an empty range
/// and otherwise returns a value inside it.
#[verifier::external_body]
fn xoshiro_gen_range_incl(g: &mut Xoshiro256StarStar, lo: u64, hi: u64) -> (r: u64)
    requires
        lo <= hi,
    ensures
        r == xoshiro_draw_range_incl(*old(g), lo, hi).0,
        *final(g) == xoshiro_draw_range_incl(*old(g), lo, hi).1,
        lo <= r <= hi,
{
    g.gen_range(lo..=hi)
}

/// Relies on `Rng::gen_ratio(n, d)`: a Bernoulli trial with probability `n / d`,
/// which panics unless `n <= d` and `d > 0`; with `n == 0` the sampled bound
/// is zero, so it never succeeds, and with `n == d` it always succeeds.
#[verifier::external_body]
fn xoshiro_gen_ratio(g: &mut Xoshiro256StarStar, n: u32, d: u32) -> (r: bool)
    requires
        n <= d,
        d > 0,
    ensures
        r == xoshiro_trial(*old(g), n, d).0,
        *final(g) == xoshiro_trial(*old(g), n, d).1,
        n == 0 ==> !r,
        n == d ==> r,
{
    g.gen_ratio(n, d)
}

/// Relies on `SliceRandom::choose`: `None` for an empty slice, with the
/// generator untouched; otherwise one element at an index drawn from the state.
#[verifier::external_body]
fn xoshiro_choose<'a, T>(g: &mut Xoshiro256StarStar, slice: &'a [T]) -> (r: Option<&'a T>)
    ensures
        r.is_none() <==> slice@.len() == 0,
        slice@.len() == 0 ==> *final(g) == *old(g),
        slice@.len() > 0 ==> 0 <= xoshiro_pick(*old(g), slice@.len()).0 < slice@.len() && r == Some(
            &slice@[xoshiro_pick(*old(g), slice@.len()).0],
        ),
        slice@.len() > 0 ==> *final(g) == xoshiro_pick(*old(g), slice@.len()).1,
{
    slice.choose(g)
}

/// Relies on `SliceRandom::shuffle`: a Fisher-Yates pass of swaps whose
/// indices are drawn from the state, so the permutation depends on the state
/// and the length alone.
#[verifier::external_body]
fn xoshiro_shuffle<T>(g: &mut Xoshiro256StarStar, slice: &mut [T])
    ensures
        ({
            let perm = xoshiro_permute(*old(g), old(slice)@.len()).0;
            &&& is_permutation(perm, old(slice)@.len())
            &&& final(slice)@.len() == old(slice)@.len()
            &&& forall|i: int|
                0 <= i < old(slice)@.len() ==> final(slice)@[i] == old(slice)@[#[trigger] perm[i]]
        }),
        *final(g) == xoshiro_permute(*old(g), old(slice)@.len()).1,
{
    slice.shuffle(g)
}

/// The observable state of a `DeterministicRng`.
pub struct RngModel {
    /// The seed it was built from.
    pub seed: u64,
    /// The generator's current state.
    pub state: Xoshiro256StarStar,
    /// How many draws were made since construction or the last reset.
    pub calls: u64,
}

/// Deterministic random number generator.
///
/// Given the same seed and the same calls, it produces the same values.
pub struct DeterministicRng {
    seed: u64,
    rng: Xoshiro256StarStar,
    calls_count: u64,
}

impl View for DeterministicRng {
    type V = RngModel;

    closed spec fn view(&self) -> RngModel {
        RngModel { seed: self.seed, state: self.rng, calls: self.calls_count }
    }
}

/// The model of a fresh generator built from `seed`.
pub open spec fn rng_init(seed: u64) -> RngModel {
    RngModel { seed, state: xoshiro_seeded(seed), calls: 0 }
}

/// The model after one draw that moved the generator to `state`.
pub open spec fn rng_drawn(m: RngModel, state: Xoshiro256StarStar) -> RngModel {
    RngModel { seed: m.seed, state, calls: (m.calls + 1) as u64 }
}

impl DeterministicRng {
    /// Create a generator from `seed`; zero is not a valid seed.
    pub fn new(seed: u64) -> (r: Self)
        requires
            seed != 0,
        ensures
            r@ == rng_init(seed),
    {
        Self::from_seed(seed)
    }

    /// Create a generator from a seed that was itself drawn from a generator.
    pub(crate) fn from_seed(seed: u64) -> (r: Self)
        ensures
            r@ == rng_init(seed),
    {
        DeterministicRng { seed, rng: xoshiro_from_seed(seed), calls_count: 0 }
    }

    /// The seed this generator was built from.
    pub fn seed(&self) -> (r: u64)
        ensures
            r == self@.seed,
    {
        self.seed
    }

    /// Number of draws since construction or the last reset.
    pub fn calls_count(&self) -> (r: u64)
        ensures
            r == self@.calls,
    {
        self.calls_count
    }

    /// Draw a uniformly distributed `u64`.
    pub fn gen(&mut self) -> (r: u64)
        requires
            old(self)@.calls < u64::MAX,
        ensures
            r == xoshiro_next(old(self)@.state).0,
            final(self)@ == rng_drawn(old(self)@, xoshiro_next(old(self)@.state).1),
    {
        self.calls_count = self.calls_count + 1;
        xoshiro_next_u64(&mut self.rng)
    }

    /// Draw a value uniformly from `range`, which must not be empty.
    pub fn gen_range(&mut self, range: std::ops::Range<u64>) -> (r: u64)
        requires
            old(self)@.calls < u64::MAX,
            range.start < range.end,
        ensures
            range.start <= r < range.end,
            r == xoshiro_draw_range(old(self)@.state, range.start, range.end).0,
            final(self)@ == rng_drawn(
                old(self)@,
                xoshiro_draw_range(old(self)@.state, range.start, range.end).1,
            ),
    {
        self.calls_count = self.calls_count + 1;
        xoshiro_gen_range(&mut self.rng, range.start, range.end)
    }

    /// Draw a value uniformly from `lo..=hi`, which must not be empty.
    pub fn gen_range_inclusive(&mut self, lo: u64, hi: u64) -> (r: u64)
        requires
            old(self)@.calls < u64::MAX,
            lo <= hi,
        ensures
            lo <= r <= hi,
            r == xoshiro_draw_range_incl(old(self)@.state, lo, hi).0,
            final(self)@ == rng_drawn(old(self)@, xoshiro_draw_range_incl(old(self)@.state, lo, hi).1),
    {
        self.calls_count = self.calls_count + 1;
        xoshiro_gen_range_incl(&mut self.rng, lo, hi)
    }

    /// A Bernoulli trial that succeeds with `probability` parts per million.
    pub fn gen_bool(&mut self, probability: u32) -> (r: bool)
        requires
            old(self)@.calls < u64::MAX,
            probability <= PROBABILITY_SCALE,
        ensures
            r == xoshiro_trial(old(self)@.state, probability, PROBABILITY_SCALE).0,
            final(self)@ == rng_drawn(
                old(self)@,
                xoshiro_trial(old(self)@.state, probability, PROBABILITY_SCALE).1,
            ),
            probability == 0 ==> !r,
            probability == PROBABILITY_SCALE ==> r,
    {
        self.calls_count = self.calls_count + 1;
        xoshiro_gen_ratio(&mut self.rng, probability, PROBABILITY_SCALE)
    }

    /// Shuffle `slice` in place; the result is a permutation of the input.
    pub fn shuffle<T>(&mut self, slice: &mut [T])
        requires
            old(self)@.calls < u64::MAX,
        ensures
            final(slice)@.len() == old(slice)@.len(),
            ({
                let perm = xoshiro_permute(old(self)@.state, old(slice)@.len()).0;
                &&& is_permutation(perm, old(slice)@.len())
                &&& forall|i: int|
                    0 <= i < old(slice)@.len() ==> final(slice)@[i] == old(slice)@[#[trigger] perm[i]]
            }),
            final(self)@ == rng_drawn(
                old(self)@,
                xoshiro_permute(old(self)@.state, old(slice)@.len()).1,
            ),
    {
        self.calls_count = self.calls_count + 1;
        xoshiro_shuffle(&mut self.rng, slice);
    }

    /// Pick one element of `slice`, or `None` when it is empty.
    pub fn choose_element<'a, T>(&mut self, slice: &'a [T]) -> (r: Option<&'a T>)
        requires
            old(self)@.calls < u64::MAX,
        ensures
            slice@.len() == 0 ==> r.is_none() && final(self)@ == rng_drawn(old(self)@, old(self)@.state),
            slice@.len() > 0 ==> {
                let i = xoshiro_pick(old(self)@.state, slice@.len()).0;
                &&& 0 <= i < slice@.len()
                &&& r == Some(&slice@[i])
                &&& final(self)@ == rng_drawn(
                    old(self)@,
                    xoshiro_pick(old(self)@.state, slice@.len()).1,
                )
            },
    {
        self.calls_count = self.calls_count + 1;
        xoshiro_choose(&mut self.rng, slice)
    }

    /// Derive an independent generator seeded by one `u64` drawn from this one.
    pub fn fork(&mut self) -> (r: Self)
        requires
            old(self)@.calls < u64::MAX,
        ensures
            r@ == rng_init(xoshiro_next(old(self)@.state).0),
            final(self)@ == rng_drawn(old(self)@, xoshiro_next(old(self)@.state).1),
    {
        let new_seed = self.gen();
        DeterministicRng::from_seed(new_seed)
    }

    /// Return to the state right after construction.
    pub fn reset(&mut self)
        ensures
            final(self)@ == rng_init(old(self)@.seed),
    {
        self.rng = xoshiro_from_seed(self.seed);
        self.calls_count = 0;
    }
}

} // verus!
