//! The dice distribution model: for each dice count `n`, the
//! probability mass function of the sum of `n` six-sided dice,
//! estimated by Monte-Carlo sampling.
//!
//! A probability is held exactly as an event count over the total
//! number of draws, so the masses of a distribution provably add up
//! to one: the counts sum to the total.

use vstd::prelude::*;
use crate::rng::gen_u32_range;

verus! {

/// How many rolls are drawn to estimate one distribution.
pub const ROLL_TRIALS: u32 = 10000;

/// Sum of a sequence of counts.
pub open spec fn sum_counts(s: Seq<u32>) -> int
    decreases s.len(),
{
    if s.len() == 0 {
        0
    } else {
        sum_counts(s.drop_last()) + s.last()
    }
}

/// Appending a count raises the sum by exactly that count.
pub proof fn lemma_sum_push(s: Seq<u32>, x: u32)
    ensures
        sum_counts(s.push(x)) == sum_counts(s) + x,
{
    assert(s.push(x).drop_last() =~= s);
}

/// Replacing one count shifts the sum by the difference.
pub proof fn lemma_sum_update(s: Seq<u32>, i: int, v: u32)
    requires
        0 <= i < s.len(),
    ensures
        sum_counts(s.update(i, v)) == sum_counts(s) - s[i] + v,
    decreases s.len(),
{
    if i == s.len() - 1 {
        assert(s.update(i, v).drop_last() =~= s.drop_last());
    } else {
        assert(s.update(i, v).drop_last() =~= s.drop_last().update(i, v));
        lemma_sum_update(s.drop_last(), i, v);
    }
}

/// A sum of counts is never negative.
pub proof fn lemma_sum_nonneg(s: Seq<u32>)
    ensures
        sum_counts(s) >= 0,
    decreases s.len(),
{
    if s.len() > 0 {
        lemma_sum_nonneg(s.drop_last());
    }
}

/// No single count exceeds the sum of all of them.
pub proof fn lemma_sum_element_bound(s: Seq<u32>, i: int)
    requires
        0 <= i < s.len(),
    ensures
        s[i] <= sum_counts(s),
    decreases s.len(),
{
    if i == s.len() - 1 {
        lemma_sum_nonneg(s.drop_last());
    } else {
        lemma_sum_element_bound(s.drop_last(), i);
    }
}

/// The estimated distribution of the sum of `dice_count` six-sided
/// dice. Index `i` of `counts` holds the number of sampled rolls
/// whose sum was `dice_count + i`; the probability mass at a sum is
/// its count over `total`.
#[derive(Debug)]
pub struct DiceDistribution {
    /// The fixed dice count `n`, in `1..=25`.
    pub dice_count: u32,
    /// One count per achievable sum in `n..=6n`, so `5n + 1` entries.
    pub counts: Vec<u32>,
    /// The number of draws the counts were collected from.
    pub total: u32,
}

impl DiceDistribution {
    /// A distribution is well formed when it covers every achievable
    /// sum and its counts add up to the (positive) draw total.
    pub open spec fn wf(self) -> bool {
        &&& 1 <= self.dice_count <= 25
        &&& self.counts@.len() == 5 * self.dice_count + 1
        &&& 1 <= self.total
        &&& sum_counts(self.counts@) == self.total
    }

    /// Builds the distribution for `dice_count` dice by drawing
    /// `ROLL_TRIALS` random rolls and tallying each observed sum.
    pub fn precomputed_for(dice_count: u32, rng: &mut rand::rngs::ThreadRng) -> (r:
        DiceDistribution)
        requires
            1 <= dice_count <= 25,
        ensures
            r.wf(),
            r.dice_count == dice_count,
            r.total == ROLL_TRIALS,
    {
        let size: usize = (5 * dice_count + 1) as usize;
        let mut counts: Vec<u32> = Vec::new();
        let mut i: usize = 0;
        while i < size
            invariant
                counts@.len() == i,
                i <= size,
                sum_counts(counts@) == 0,
            decreases size - i,
        {
            proof {
                lemma_sum_push(counts@, 0);
            }
            counts.push(0);
            i = i + 1;
        }
        let mut t: u32 = 0;
        while t < ROLL_TRIALS
            invariant
                1 <= dice_count <= 25,
                counts@.len() == 5 * dice_count + 1,
                t <= ROLL_TRIALS,
                sum_counts(counts@) == t,
            decreases ROLL_TRIALS - t,
        {
            let roll = roll_dice_sum(rng, dice_count);
            let idx: usize = (roll - dice_count) as usize;
            let c = counts[idx];
            proof {
                lemma_sum_element_bound(counts@, idx as int);
                lemma_sum_update(counts@, idx as int, (c + 1) as u32);
            }
            counts.set(idx, c + 1);
            t = t + 1;
        }
        DiceDistribution { dice_count, counts, total: ROLL_TRIALS }
    }

    /// The number of sampled rolls whose dice summed to `roll_sum`;
    /// the probability mass at `roll_sum` is this count over `total`.
    pub fn count_for_sum(&self, roll_sum: u32) -> (r: u32)
        requires
            self.wf(),
            self.dice_count <= roll_sum <= 6 * self.dice_count,
        ensures
            r == self.counts@[roll_sum - self.dice_count],
    {
        self.counts[(roll_sum - self.dice_count) as usize]
    }
}

/// Law: for every well-formed distribution, the probability masses
/// over all achievable sums add up to one — the tallied counts add up
/// exactly to the number of draws.
pub proof fn lemma_probabilities_sum_to_one(d: DiceDistribution)
    requires
        d.wf(),
    ensures
        sum_counts(d.counts@) == d.total,
{
}

/// One random roll: the sum of `dice_count` uniform draws from
/// `1..=6`.
fn roll_dice_sum(rng: &mut rand::rngs::ThreadRng, dice_count: u32) -> (r: u32)
    requires
        1 <= dice_count <= 25,
    ensures
        dice_count <= r <= 6 * dice_count,
{
    let mut sum: u32 = 0;
    let mut i: u32 = 0;
    while i < dice_count
        invariant
            i <= dice_count <= 25,
            i <= sum <= 6 * i,
        decreases dice_count - i,
    {
        let d = gen_u32_range(rng, 1, 7);
        sum = sum + d;
        i = i + 1;
    }
    sum
}

/// Distributions for every dice count from one up to a maximum,
/// indexed so that `distributions[n - 1]` serves `n` dice.
#[derive(Debug)]
pub struct DiceDistributionCache {
    pub distributions: Vec<DiceDistribution>,
}

impl DiceDistributionCache {
    /// Slot `i` holds a well-formed distribution for `i + 1` dice.
    pub open spec fn wf(self) -> bool {
        forall|i: int|
            0 <= i < self.distributions@.len() ==> {
                &&& (#[trigger] self.distributions@[i]).wf()
                &&& self.distributions@[i].dice_count == i + 1
            }
    }

    /// Builds distributions for every dice count in
    /// `1..=max_dice_count`.
    pub fn precomputed(max_dice_count: u32, rng: &mut rand::rngs::ThreadRng) -> (r:
        DiceDistributionCache)
        requires
            max_dice_count <= 25,
        ensures
            r.wf(),
            r.distributions@.len() == max_dice_count,
    {
        let mut distributions: Vec<DiceDistribution> = Vec::new();
        let mut n: u32 = 1;
        while n <= max_dice_count
            invariant
                1 <= n <= max_dice_count + 1,
                max_dice_count <= 25,
                distributions@.len() == n - 1,
                forall|i: int|
                    0 <= i < distributions@.len() ==> {
                        &&& (#[trigger] distributions@[i]).wf()
                        &&& distributions@[i].dice_count == i + 1
                    },
            decreases max_dice_count + 1 - n,
        {
            let d = DiceDistribution::precomputed_for(n, rng);
            distributions.push(d);
            n = n + 1;
        }
        DiceDistributionCache { distributions }
    }

    /// The distribution for exactly `dice_count` dice.
    pub fn distribution_for(&self, dice_count: u32) -> (r: &DiceDistribution)
        requires
            self.wf(),
            1 <= dice_count <= self.distributions@.len(),
        ensures
            *r == self.distributions@[dice_count - 1],
            r.wf(),
            r.dice_count == dice_count,
    {
        &self.distributions[(dice_count - 1) as usize]
    }
}

} // verus!
