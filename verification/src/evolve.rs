//! The population controller: evaluation, selection (elitism plus
//! roulette), breeding, replenishment, and the generational loop.

use vstd::prelude::*;
use crate::dice::DiceDistributionCache;
use crate::fitness::{sample_score, score_for_error, TargetMatrix, MAX_SCORE};
use crate::rng::{gen_u128_range, gen_usize_range};
use crate::sample::Sample;

verus! {

/// Every sample of a population is well formed and sized to the
/// catalogs.
pub open spec fn pop_wf(samples: Seq<Sample>, weapon_count: int, enemy_count: int) -> bool {
    forall|i: int|
        0 <= i < samples.len() ==> {
            &&& (#[trigger] samples[i]).wf()
            &&& samples[i].weapons@.len() == weapon_count
            &&& samples[i].enemies@.len() == enemy_count
        }
}

/// Sum of the scores of the first `k` samples.
pub open spec fn score_sum_prefix(samples: Seq<Sample>, k: int) -> int
    decreases k,
{
    if k <= 0 {
        0
    } else {
        score_sum_prefix(samples, k - 1) + samples[k - 1].score
    }
}

/// Score sums grow with the prefix length.
pub proof fn lemma_score_sum_monotone(samples: Seq<Sample>, a: int, b: int)
    requires
        0 <= a <= b <= samples.len(),
    ensures
        score_sum_prefix(samples, a) <= score_sum_prefix(samples, b),
    decreases b,
{
    if a < b {
        lemma_score_sum_monotone(samples, a, b - 1);
    }
}

/// Two samples that agree on every field.
pub open spec fn same_sample(a: Sample, b: Sample) -> bool {
    &&& a.weapons@ == b.weapons@
    &&& a.enemies@ == b.enemies@
    &&& a.score == b.score
}

/// The elite's score, zero when no elite has been found yet.
pub open spec fn elite_score_spec(elite: Option<Sample>) -> int {
    match elite {
        Option::None => 0,
        Option::Some(b) => b.score as int,
    }
}

/// The elite, if present, is well formed and sized to the catalogs.
pub open spec fn elite_ok(elite: Option<Sample>, weapon_count: int, enemy_count: int) -> bool {
    match elite {
        Option::None => true,
        Option::Some(b) => b.wf() && b.weapons@.len() == weapon_count && b.enemies@.len()
            == enemy_count,
    }
}

/// Overwrites the score of the sample at `i`, leaving everything
/// else unchanged.
fn set_score(samples: &mut Vec<Sample>, i: usize, score: u64)
    requires
        i < old(samples)@.len(),
    ensures
        final(samples)@.len() == old(samples)@.len(),
        final(samples)@[i as int].weapons@ == old(samples)@[i as int].weapons@,
        final(samples)@[i as int].enemies@ == old(samples)@[i as int].enemies@,
        final(samples)@[i as int].score == score,
        forall|j: int|
            0 <= j < old(samples)@.len() && j != i ==> final(samples)@[j] == old(samples)@[j],
{
    let s = &mut samples[i];
    s.score = score;
}

/// Recomputes every sample's score from scratch against the target,
/// and returns the total of the new scores. No stale score survives:
/// each score equals exactly the fixed-point inverse of that sample's
/// squared error.
pub fn evaluate_population(
    samples: &mut Vec<Sample>,
    target: &TargetMatrix,
    cache: &DiceDistributionCache,
) -> (total: u128)
    requires
        pop_wf(old(samples)@, target.weapon_count as int, target.enemy_count as int),
        target.wf(),
        cache.wf(),
        cache.distributions@.len() >= 25,
    ensures
        final(samples)@.len() == old(samples)@.len(),
        pop_wf(final(samples)@, target.weapon_count as int, target.enemy_count as int),
        forall|i: int|
            0 <= i < final(samples)@.len() ==> {
                &&& (#[trigger] final(samples)@[i]).weapons@ == old(samples)@[i].weapons@
                &&& final(samples)@[i].enemies@ == old(samples)@[i].enemies@
                &&& final(samples)@[i].score == sample_score(final(samples)@[i], *target, *cache)
                &&& final(samples)@[i].score <= MAX_SCORE
            },
        total == score_sum_prefix(final(samples)@, final(samples)@.len() as int),
{
    let n = samples.len();
    let mut total: u128 = 0;
    let mut i: usize = 0;
    while i < n
        invariant
            target.wf(),
            cache.wf(),
            cache.distributions@.len() >= 25,
            n == samples@.len(),
            n == old(samples)@.len(),
            i <= n,
            pop_wf(samples@, target.weapon_count as int, target.enemy_count as int),
            forall|j: int| i <= j < n ==> samples@[j] == old(samples)@[j],
            forall|j: int|
                0 <= j < i ==> {
                    &&& (#[trigger] samples@[j]).weapons@ == old(samples)@[j].weapons@
                    &&& samples@[j].enemies@ == old(samples)@[j].enemies@
                    &&& samples@[j].score == sample_score(samples@[j], *target, *cache)
                    &&& samples@[j].score <= MAX_SCORE
                },
            total == score_sum_prefix(samples@, i as int),
            total <= (i as int) * (MAX_SCORE as int),
        decreases n - i,
    {
        let err = samples[i].total_squared_error(target, cache);
        let sc = score_for_error(err);
        let ghost before = samples@;
        set_score(samples, i, sc);
        proof {
            assert(score_sum_prefix(samples@, i as int) == score_sum_prefix(before, i as int)) by {
                lemma_score_sum_prefix_congruence(samples@, before, i as int);
            }
            assert(total + sc <= ((i + 1) as int) * (MAX_SCORE as int)) by (nonlinear_arith)
                requires
                    total <= (i as int) * (MAX_SCORE as int),
                    0 <= sc <= MAX_SCORE,
                    0 <= i,
            ;
            assert(((i + 1) as int) * (MAX_SCORE as int) <= 0xffff_ffff_ffff_ffff * (
            MAX_SCORE as int)) by (nonlinear_arith)
                requires
                    0 <= i + 1 <= 0xffff_ffff_ffff_ffff,
            ;
        }
        total = total + (sc as u128);
        i = i + 1;
    }
    total
}

/// Prefix sums agree on sequences that agree up to the prefix.
proof fn lemma_score_sum_prefix_congruence(a: Seq<Sample>, b: Seq<Sample>, k: int)
    requires
        k <= a.len(),
        k <= b.len(),
        forall|j: int| 0 <= j < k ==> a[j].score == b[j].score,
    ensures
        score_sum_prefix(a, k) == score_sum_prefix(b, k),
    decreases k,
{
    if k > 0 {
        lemma_score_sum_prefix_congruence(a, b, k - 1);
    }
}

/// What selection does with one sample: promote it to elite (and
/// keep it), subject it to the roulette draw, or discard it.
#[derive(Clone, Copy, Debug, PartialEq, Eq, Structural)]
pub enum SelectionDecision {
    PromoteElite,
    Roulette,
    Discard,
}

/// The selection rule for one sample: only a sample strictly above
/// the population's mean score survives at all; such a sample is
/// promoted when it strictly beats the current elite, and otherwise
/// faces the roulette.
pub open spec fn selection_decision(
    score: u64,
    total: int,
    population_size: int,
    current_elite_score: int,
) -> SelectionDecision {
    if score * population_size > total {
        if score > current_elite_score {
            SelectionDecision::PromoteElite
        } else {
            SelectionDecision::Roulette
        }
    } else {
        SelectionDecision::Discard
    }
}

/// Decides one sample's fate during selection.
pub fn decide_selection(
    score: u64,
    total: u128,
    population_size: usize,
    current_elite_score: u64,
) -> (d: SelectionDecision)
    ensures
        d == selection_decision(
            score,
            total as int,
            population_size as int,
            current_elite_score as int,
        ),
{
    proof {
        assert((score as int) * (population_size as int) < 0x10000000000000000 * 0x10000000000000000)
            by (nonlinear_arith)
            requires
                0 <= score < 0x10000000000000000,
                0 <= population_size < 0x10000000000000000,
        ;
    }
    if (score as u128) * (population_size as u128) > total {
        if score > current_elite_score {
            SelectionDecision::PromoteElite
        } else {
            SelectionDecision::Roulette
        }
    } else {
        SelectionDecision::Discard
    }
}

/// Law: a sample whose score is at or below the population mean is
/// only ever discarded or sent to the roulette, never promoted; and
/// a promotion happens only for a score strictly above both the mean
/// and the current elite's score.
pub proof fn lemma_selection_asymmetry(
    score: u64,
    total: int,
    population_size: int,
    current_elite_score: int,
)
    ensures
        score * population_size <= total ==> selection_decision(
            score,
            total,
            population_size,
            current_elite_score,
        ) == SelectionDecision::Discard,
        selection_decision(score, total, population_size, current_elite_score)
            == SelectionDecision::PromoteElite ==> score * population_size > total && score
            > current_elite_score,
{
}

/// The elitism half of a selection pass is deterministic: this folds
/// the promotion decision over the first `k` samples, yielding the
/// score the running elite holds after them. A sample is promoted
/// exactly when `selection_decision` says so against the running
/// score, and the running score then becomes that sample's score.
pub open spec fn elite_score_after_pass(
    samples: Seq<Sample>,
    total: int,
    population_size: int,
    initial_elite_score: int,
    k: int,
) -> int
    decreases k,
{
    if k <= 0 {
        initial_elite_score
    } else {
        let prev = elite_score_after_pass(
            samples,
            total,
            population_size,
            initial_elite_score,
            k - 1,
        );
        if selection_decision(samples[k - 1].score, total, population_size, prev)
            == SelectionDecision::PromoteElite {
            samples[k - 1].score as int
        } else {
            prev
        }
    }
}

/// Whether the pass promotes sample `k` to elite: its score is
/// strictly above the mean and strictly above the running elite
/// score at that point.
pub open spec fn promoted_at(
    samples: Seq<Sample>,
    total: int,
    population_size: int,
    initial_elite_score: int,
    k: int,
) -> bool {
    selection_decision(
        samples[k].score,
        total,
        population_size,
        elite_score_after_pass(samples, total, population_size, initial_elite_score, k),
    ) == SelectionDecision::PromoteElite
}

/// The full elitism fold: the elite standing after the pass has
/// visited the first `k` samples. A promoted sample replaces the
/// running elite; otherwise the running elite stays.
pub open spec fn elite_after_pass(
    samples: Seq<Sample>,
    total: int,
    population_size: int,
    initial_elite: Option<Sample>,
    k: int,
) -> Option<Sample>
    decreases k,
{
    if k <= 0 {
        initial_elite
    } else {
        let prev = elite_after_pass(samples, total, population_size, initial_elite, k - 1);
        if selection_decision(samples[k - 1].score, total, population_size, elite_score_spec(prev))
            == SelectionDecision::PromoteElite {
            Option::Some(samples[k - 1])
        } else {
            prev
        }
    }
}

/// Two optional elites that are both absent, or agree on every
/// field.
pub open spec fn elite_matches(a: Option<Sample>, b: Option<Sample>) -> bool {
    match (a, b) {
        (Option::Some(x), Option::Some(y)) => same_sample(x, y),
        (Option::None, Option::None) => true,
        _ => false,
    }
}

/// Pushing a copy of sample `i` onto the survivors preserves the
/// selection pass's bookkeeping: every promoted sample up to and
/// including `i` still has a copy among the survivors, and every
/// survivor is still an above-mean copy of some input sample.
proof fn lemma_survivor_push(
    samples: Seq<Sample>,
    old_survivors: Seq<Sample>,
    new_survivors: Seq<Sample>,
    total: int,
    population_size: int,
    initial_elite_score: int,
    i: int,
)
    requires
        0 <= i < samples.len(),
        new_survivors == old_survivors.push(new_survivors.last()),
        new_survivors.len() == old_survivors.len() + 1,
        same_sample(new_survivors.last(), samples[i]),
        (samples[i].score as int) * population_size > total,
        forall|k: int|
            0 <= k < i && #[trigger] promoted_at(
                samples,
                total,
                population_size,
                initial_elite_score,
                k,
            ) ==> exists|j: int|
                0 <= j < old_survivors.len() && #[trigger] same_sample(
                    old_survivors[j],
                    samples[k],
                ),
        forall|j: int|
            0 <= j < old_survivors.len() ==> ((#[trigger] old_survivors[j]).score as int)
                * population_size > total && exists|k: int|
                0 <= k < samples.len() && #[trigger] same_sample(old_survivors[j], samples[k]),
    ensures
        forall|k: int|
            0 <= k < i + 1 && #[trigger] promoted_at(
                samples,
                total,
                population_size,
                initial_elite_score,
                k,
            ) ==> exists|j: int|
                0 <= j < new_survivors.len() && #[trigger] same_sample(
                    new_survivors[j],
                    samples[k],
                ),
        forall|j: int|
            0 <= j < new_survivors.len() ==> ((#[trigger] new_survivors[j]).score as int)
                * population_size > total && exists|k: int|
                0 <= k < samples.len() && #[trigger] same_sample(new_survivors[j], samples[k]),
{
    assert forall|k: int|
        0 <= k < i + 1 && #[trigger] promoted_at(
            samples,
            total,
            population_size,
            initial_elite_score,
            k,
        ) implies exists|j: int|
        0 <= j < new_survivors.len() && #[trigger] same_sample(
            new_survivors[j],
            samples[k],
        ) by {
        if k == i {
            assert(same_sample(new_survivors[new_survivors.len() - 1], samples[k]));
        } else {
            let j0 = choose|j0: int|
                0 <= j0 < old_survivors.len() && #[trigger] same_sample(
                    old_survivors[j0],
                    samples[k],
                );
            assert(same_sample(new_survivors[j0], samples[k]));
        }
    }
    assert forall|j: int| 0 <= j < new_survivors.len() implies ((#[trigger] new_survivors[j]).score
        as int) * population_size > total && exists|k: int|
        0 <= k < samples.len() && #[trigger] same_sample(new_survivors[j], samples[k]) by {
        if j == new_survivors.len() - 1 {
            assert(same_sample(new_survivors[j], samples[i]));
        } else {
            assert(new_survivors[j] == old_survivors[j]);
            let k0 = choose|k0: int|
                0 <= k0 < samples.len() && #[trigger] same_sample(old_survivors[j], samples[k0]);
            assert(same_sample(new_survivors[j], samples[k0]));
        }
    }
}

/// Runs one selection pass over an evaluated population, in sequence
/// order, with a running remaining total. A sample strictly above the
/// mean score either replaces the elite (when strictly better) and is
/// kept unconditionally, or survives a roulette draw against the
/// remaining total with probability `score / remaining`. All other
/// samples are discarded. Returns the survivors — each an above-mean
/// copy of an input sample, always fewer than `population_size`, and
/// among them a copy of every promoted sample — and the updated
/// elite, which equals, field for field, the deterministic fold of
/// the promotion decisions over the pass. Only which roulette
/// samples survive is left to the draws.
#[verifier::rlimit(50)]
pub fn select_population(
    samples: &Vec<Sample>,
    total: u128,
    population_size: usize,
    elite: Option<Sample>,
    weapon_count: usize,
    enemy_count: usize,
    rng: &mut rand::rngs::ThreadRng,
) -> (r: (Vec<Sample>, Option<Sample>))
    requires
        pop_wf(samples@, weapon_count as int, enemy_count as int),
        elite_ok(elite, weapon_count as int, enemy_count as int),
        samples@.len() == population_size,
        1 <= population_size,
        total == score_sum_prefix(samples@, samples@.len() as int),
    ensures
        pop_wf(r.0@, weapon_count as int, enemy_count as int),
        r.0@.len() < population_size,
        elite_ok(r.1, weapon_count as int, enemy_count as int),
        elite_score_spec(r.1) >= elite_score_spec(elite),
        elite_score_spec(r.1) == elite_score_after_pass(
            samples@,
            total as int,
            population_size as int,
            elite_score_spec(elite),
            samples@.len() as int,
        ),
        elite_matches(
            r.1,
            elite_after_pass(
                samples@,
                total as int,
                population_size as int,
                elite,
                samples@.len() as int,
            ),
        ),
        forall|k: int|
            0 <= k < samples@.len() && #[trigger] promoted_at(
                samples@,
                total as int,
                population_size as int,
                elite_score_spec(elite),
                k,
            ) ==> exists|j: int|
                0 <= j < r.0@.len() && #[trigger] same_sample(r.0@[j], samples@[k]),
        forall|j: int|
            0 <= j < r.0@.len() ==> ((#[trigger] r.0@[j]).score as int) * (
            population_size as int) > total as int && exists|k: int|
                0 <= k < samples@.len() && #[trigger] same_sample(r.0@[j], samples@[k]),
        match r.1 {
            Option::None => elite == Option::<Sample>::None,
            Option::Some(b) => {
                ||| elite == Option::Some(b)
                ||| exists|i: int|
                    0 <= i < samples@.len() && #[trigger] same_sample(b, samples@[i])
            },
        },
{
    let n = samples.len();
    let mut survivors: Vec<Sample> = Vec::new();
    let mut current_elite: Option<Sample> = elite;
    let mut remaining: u128 = total;
    let ghost mut surv_sum: int = 0;
    let mut i: usize = 0;
    proof {
        assert(surv_sum * (population_size as int) >= (survivors@.len() as int) * (total as int
            + 1)) by (nonlinear_arith)
            requires
                surv_sum == 0,
                survivors@.len() == 0,
        ;
    }
    while i < n
        invariant
            pop_wf(samples@, weapon_count as int, enemy_count as int),
            n == samples@.len(),
            samples@.len() == population_size,
            1 <= population_size,
            total == score_sum_prefix(samples@, n as int),
            i <= n,
            remaining == total - score_sum_prefix(samples@, i as int),
            0 <= surv_sum <= score_sum_prefix(samples@, i as int),
            surv_sum * (population_size as int) >= (survivors@.len() as int) * (total as int + 1),
            pop_wf(survivors@, weapon_count as int, enemy_count as int),
            elite_ok(current_elite, weapon_count as int, enemy_count as int),
            elite_score_spec(current_elite) >= elite_score_spec(elite),
            elite_score_spec(current_elite) == elite_score_after_pass(
                samples@,
                total as int,
                population_size as int,
                elite_score_spec(elite),
                i as int,
            ),
            elite_matches(
                current_elite,
                elite_after_pass(samples@, total as int, population_size as int, elite, i as int),
            ),
            forall|k: int|
                0 <= k < i && #[trigger] promoted_at(
                    samples@,
                    total as int,
                    population_size as int,
                    elite_score_spec(elite),
                    k,
                ) ==> exists|j: int|
                    0 <= j < survivors@.len() && #[trigger] same_sample(
                        survivors@[j],
                        samples@[k],
                    ),
            forall|j: int|
                0 <= j < survivors@.len() ==> ((#[trigger] survivors@[j]).score as int) * (
                population_size as int) > total as int && exists|k: int|
                    0 <= k < samples@.len() && #[trigger] same_sample(survivors@[j], samples@[k]),
            match current_elite {
                Option::None => elite == Option::<Sample>::None,
                Option::Some(b) => {
                    ||| elite == Option::Some(b)
                    ||| exists|k: int|
                        0 <= k < samples@.len() && #[trigger] same_sample(b, samples@[k])
                },
            },
        decreases n - i,
    {
        let ghost surv0 = survivors@;
        proof {
            lemma_score_sum_monotone(samples@, 0, i as int);
            lemma_score_sum_monotone(samples@, i as int + 1, n as int);
            assert(forall|j: int|
                0 <= j < surv0.len() ==> ((#[trigger] surv0[j]).score as int) * (
                population_size as int) > total as int && exists|k: int|
                    0 <= k < samples@.len() && #[trigger] same_sample(surv0[j], samples@[k]));
            assert(forall|k: int|
                0 <= k < i && #[trigger] promoted_at(
                    samples@,
                    total as int,
                    population_size as int,
                    elite_score_spec(elite),
                    k,
                ) ==> exists|j: int|
                    0 <= j < surv0.len() && #[trigger] same_sample(surv0[j], samples@[k]));
        }
        let score = samples[i].score;
        let current_elite_score: u64 = match &current_elite {
            Option::Some(b) => b.score,
            Option::None => 0,
        };
        let decision = decide_selection(score, total, population_size, current_elite_score);
        let ghost len_before = survivors@.len() as int;
        let ghost fold_i = elite_score_after_pass(
            samples@,
            total as int,
            population_size as int,
            elite_score_spec(elite),
            i as int,
        );
        match decision {
            SelectionDecision::PromoteElite => {
                let chosen = samples[i].duplicate();
                proof {
                    assert(same_sample(chosen, samples@[i as int]));
                }
                current_elite = Option::Some(chosen);
                let kept = samples[i].duplicate();
                survivors.push(kept);
                proof {
                    assert(same_sample(survivors@.last(), samples@[i as int]));
                    lemma_survivor_push(
                        samples@,
                        surv0,
                        survivors@,
                        total as int,
                        population_size as int,
                        elite_score_spec(elite),
                        i as int,
                    );
                    assert((surv_sum + score) * (population_size as int) >= (len_before + 1) * (
                    total as int + 1)) by (nonlinear_arith)
                        requires
                            surv_sum * (population_size as int) >= len_before * (total as int + 1),
                            (score as int) * (population_size as int) >= total as int + 1,
                            0 <= surv_sum,
                            0 <= len_before,
                    ;
                    surv_sum = surv_sum + score;
                }
            },
            SelectionDecision::Roulette => {
                proof {
                    assert(score >= 1) by (nonlinear_arith)
                        requires
                            (score as int) * (population_size as int) > total as int,
                            total as int >= 0,
                    ;
                }
                let draw = gen_u128_range(rng, 0, remaining);
                if (score as u128) > draw {
                    let kept = samples[i].duplicate();
                    survivors.push(kept);
                    proof {
                        assert(same_sample(survivors@.last(), samples@[i as int]));
                        lemma_survivor_push(
                            samples@,
                            surv0,
                            survivors@,
                            total as int,
                            population_size as int,
                            elite_score_spec(elite),
                            i as int,
                        );
                        assert((surv_sum + score) * (population_size as int) >= (len_before + 1) * (
                        total as int + 1)) by (nonlinear_arith)
                            requires
                                surv_sum * (population_size as int) >= len_before * (
                                total as int + 1),
                                (score as int) * (population_size as int) >= total as int + 1,
                                0 <= surv_sum,
                                0 <= len_before,
                        ;
                        surv_sum = surv_sum + score;
                    }
                }
            },
            SelectionDecision::Discard => {},
        }
        proof {
            assert(elite_score_after_pass(
                samples@,
                total as int,
                population_size as int,
                elite_score_spec(elite),
                i as int + 1,
            ) == elite_score_spec(current_elite));
            assert(elite_matches(
                current_elite,
                elite_after_pass(
                    samples@,
                    total as int,
                    population_size as int,
                    elite,
                    i as int + 1,
                ),
            ));
            assert(forall|j: int|
                0 <= j < survivors@.len() ==> ((#[trigger] survivors@[j]).score as int) * (
                population_size as int) > total as int && exists|k: int|
                    0 <= k < samples@.len() && #[trigger] same_sample(survivors@[j], samples@[k]));
        }
        remaining = remaining - (score as u128);
        i = i + 1;
    }
    proof {
        assert(elite_matches(
            current_elite,
            elite_after_pass(samples@, total as int, population_size as int, elite, n as int),
        ));
        assert(forall|j: int|
            0 <= j < survivors@.len() ==> ((#[trigger] survivors@[j]).score as int) * (
            population_size as int) > total as int && exists|k: int|
                0 <= k < samples@.len() && #[trigger] same_sample(survivors@[j], samples@[k]));
        assert(forall|k: int|
            0 <= k < samples@.len() && #[trigger] promoted_at(
                samples@,
                total as int,
                population_size as int,
                elite_score_spec(elite),
                k,
            ) ==> exists|j: int|
                0 <= j < survivors@.len() && #[trigger] same_sample(survivors@[j], samples@[k]));
        assert((survivors@.len() as int) < population_size as int) by (nonlinear_arith)
            requires
                surv_sum * (population_size as int) >= (survivors@.len() as int) * (
                total as int + 1),
                0 <= surv_sum <= total as int,
                1 <= population_size as int,
                0 <= survivors@.len() as int,
        ;
    }
    (survivors, current_elite)
}

/// Scans an evaluated population for a sample whose score reaches
/// the acceptance threshold, returning the index of a best-scoring
/// sample when one exists.
pub fn find_acceptable(samples: &Vec<Sample>, acceptance_score: u64) -> (r: Option<usize>)
    ensures
        match r {
            Option::Some(i) => {
                &&& i < samples@.len()
                &&& samples@[i as int].score >= acceptance_score
                &&& forall|j: int|
                    0 <= j < samples@.len() ==> (#[trigger] samples@[j]).score <= samples@[i as int].score
            },
            Option::None => forall|j: int|
                0 <= j < samples@.len() ==> (#[trigger] samples@[j]).score < acceptance_score,
        },
{
    let n = samples.len();
    if n == 0 {
        return Option::None;
    }
    let mut best: usize = 0;
    let mut i: usize = 1;
    while i < n
        invariant
            n == samples@.len(),
            best < i <= n,
            forall|j: int|
                0 <= j < i ==> (#[trigger] samples@[j]).score <= samples@[best as int].score,
        decreases n - i,
    {
        if samples[i].score > samples[best].score {
            best = i;
        }
        i = i + 1;
    }
    if samples[best].score >= acceptance_score {
        Option::Some(best)
    } else {
        Option::None
    }
}

/// How many children to breed for a shortfall of `lack` samples: a
/// tenth (rounded to nearest) bred from the elite, six tenths
/// (rounded to nearest) bred from survivor pairs; together never
/// more than the shortfall.
pub fn breed_counts(lack: usize) -> (r: (usize, usize))
    ensures
        r.0 == (lack as int + 5) / 10,
        r.1 == (6 * lack as int + 5) / 10,
        r.0 + r.1 <= lack,
{
    let elite_kids: u128 = ((lack as u128) + 5) / 10;
    let pair_kids: u128 = (6 * (lack as u128) + 5) / 10;
    proof {
        assert((lack as int + 5) / 10 + (6 * lack as int + 5) / 10 <= lack as int && 0 <= (
        lack as int + 5) / 10 && 0 <= (6 * lack as int + 5) / 10) by (nonlinear_arith)
            requires
                lack as int >= 0,
        ;
    }
    (elite_kids as usize, pair_kids as usize)
}

/// Appends freshly random samples until the population is exactly
/// `population_size` strong, leaving what is already there
/// untouched.
pub fn replenish(
    samples: &mut Vec<Sample>,
    population_size: usize,
    weapon_count: usize,
    enemy_count: usize,
    rng: &mut rand::rngs::ThreadRng,
)
    requires
        pop_wf(old(samples)@, weapon_count as int, enemy_count as int),
        old(samples)@.len() <= population_size,
    ensures
        final(samples)@.len() == population_size,
        pop_wf(final(samples)@, weapon_count as int, enemy_count as int),
        forall|j: int|
            0 <= j < old(samples)@.len() ==> final(samples)@[j] == old(samples)@[j],
        forall|j: int|
            old(samples)@.len() <= j < population_size ==> (#[trigger] final(samples)@[j]).score
                == 0,
{
    while samples.len() < population_size
        invariant
            old(samples)@.len() <= samples@.len() <= population_size,
            pop_wf(samples@, weapon_count as int, enemy_count as int),
            forall|j: int| 0 <= j < old(samples)@.len() ==> samples@[j] == old(samples)@[j],
            forall|j: int|
                old(samples)@.len() <= j < samples@.len() ==> (#[trigger] samples@[j]).score == 0,
        decreases population_size - samples@.len(),
    {
        let fresh = Sample::generate_random(weapon_count, enemy_count, rng);
        samples.push(fresh);
    }
}

/// Builds the next generation from the selection survivors: the
/// elite is re-inserted into the working set right after them — so it
/// provably stands in the set that breeding draws on, exempt from
/// replacement — then children are bred (a tenth of the shortfall
/// from the elite and a random survivor, six tenths from random
/// survivor pairs, skipped when fewer than two individuals are at
/// hand), and fresh random samples fill the population back to its
/// exact size.
pub fn breed_next_generation(
    survivors: Vec<Sample>,
    elite: &Option<Sample>,
    population_size: usize,
    weapon_count: usize,
    enemy_count: usize,
    rng: &mut rand::rngs::ThreadRng,
) -> (next: Vec<Sample>)
    requires
        pop_wf(survivors@, weapon_count as int, enemy_count as int),
        elite_ok(*elite, weapon_count as int, enemy_count as int),
        survivors@.len() < population_size,
    ensures
        next@.len() == population_size,
        pop_wf(next@, weapon_count as int, enemy_count as int),
        forall|j: int| 0 <= j < survivors@.len() ==> #[trigger] next@[j] == survivors@[j],
        match *elite {
            Option::Some(b) => survivors@.len() < next@.len() && same_sample(
                next@[survivors@.len() as int],
                b,
            ),
            Option::None => true,
        },
{
    let surv_len = survivors.len();
    let ghost orig = survivors@;
    let mut next: Vec<Sample> = survivors;
    match elite {
        Option::Some(b) => {
            next.push(b.duplicate());
            proof {
                assert(same_sample(next@[surv_len as int], *b));
            }
        },
        Option::None => {},
    }
    let working: usize = next.len();
    if working >= 2 {
        let lack = population_size - working;
        let kid_counts = breed_counts(lack);
        let elite_kids = kid_counts.0;
        let pair_kids = kid_counts.1;
        match elite {
            Option::Some(b) => {
                let mut c: usize = 0;
                while c < elite_kids
                    invariant
                        pop_wf(next@, weapon_count as int, enemy_count as int),
                        next@.len() == working + c,
                        c <= elite_kids,
                        working + elite_kids + pair_kids <= population_size,
                        1 <= surv_len < working,
                        surv_len == orig.len(),
                        forall|j: int| 0 <= j < surv_len ==> #[trigger] next@[j] == orig[j],
                        same_sample(next@[surv_len as int], *b),
                        b.wf(),
                        b.weapons@.len() == weapon_count,
                        b.enemies@.len() == enemy_count,
                    decreases elite_kids - c,
                {
                    let pi = gen_usize_range(rng, 0, surv_len);
                    let child = b.breed_with(rng, &next[pi]);
                    next.push(child);
                    c = c + 1;
                }
            },
            Option::None => {},
        }
        if surv_len >= 1 {
            let base = next.len();
            let mut c: usize = 0;
            while c < pair_kids
                invariant
                    pop_wf(next@, weapon_count as int, enemy_count as int),
                    next@.len() == base + c,
                    c <= pair_kids,
                    base + pair_kids <= population_size,
                    1 <= surv_len <= base,
                    surv_len == orig.len(),
                    forall|j: int| 0 <= j < surv_len ==> #[trigger] next@[j] == orig[j],
                    match *elite {
                        Option::Some(b) => surv_len < next@.len() && same_sample(
                            next@[surv_len as int],
                            b,
                        ),
                        Option::None => true,
                    },
                decreases pair_kids - c,
            {
                let mi = gen_usize_range(rng, 0, surv_len);
                let fi = gen_usize_range(rng, 0, surv_len);
                let mother = &next[mi];
                let father = &next[fi];
                let child = mother.breed_with(rng, father);
                next.push(child);
                c = c + 1;
            }
        }
    }
    replenish(&mut next, population_size, weapon_count, enemy_count, rng);
    next
}

/// Parameters of one evolution run.
#[derive(Clone, Copy, Debug)]
pub struct EvolutionConfig {
    /// Fixed size `P` of every generation.
    pub population_size: usize,
    /// Hard cap on the number of generations, so a run always ends.
    pub max_generations: u32,
    /// Stop as soon as a sample's score reaches this threshold.
    pub acceptance_score: u64,
}

/// What an evolution run produced.
#[derive(Debug)]
pub struct EvolutionOutcome {
    /// The best sample found, if any generation produced an elite or
    /// an acceptable sample.
    pub best: Option<Sample>,
    /// How many full generations ran before returning.
    pub generations: u32,
}

/// Runs the generational loop: evaluate, then stop if an acceptable
/// sample was just evaluated, else select, breed, and replenish back
/// to `population_size`; up to `max_generations` times.
pub fn run_evolution(
    target: &TargetMatrix,
    cache: &DiceDistributionCache,
    config: &EvolutionConfig,
    rng: &mut rand::rngs::ThreadRng,
) -> (r: EvolutionOutcome)
    requires
        target.wf(),
        cache.wf(),
        cache.distributions@.len() >= 25,
        1 <= config.population_size,
    ensures
        r.generations <= config.max_generations,
        elite_ok(r.best, target.weapon_count as int, target.enemy_count as int),
        match r.best {
            Option::None => r.generations == config.max_generations,
            Option::Some(b) => b.score == sample_score(b, *target, *cache),
        },
        r.generations < config.max_generations ==> match r.best {
            Option::Some(b) => b.score >= config.acceptance_score,
            Option::None => false,
        },
        config.acceptance_score == 0 && config.max_generations >= 1 ==> r.generations == 0
            && match r.best {
            Option::Some(_) => true,
            Option::None => false,
        },
{
    let weapon_count = target.weapon_count;
    let enemy_count = target.enemy_count;
    let mut samples: Vec<Sample> = Vec::new();
    replenish(&mut samples, config.population_size, weapon_count, enemy_count, rng);
    let mut elite: Option<Sample> = Option::None;
    let mut g: u32 = 0;
    while g < config.max_generations
        invariant
            target.wf(),
            cache.wf(),
            cache.distributions@.len() >= 25,
            1 <= config.population_size,
            weapon_count == target.weapon_count,
            enemy_count == target.enemy_count,
            samples@.len() == config.population_size,
            pop_wf(samples@, weapon_count as int, enemy_count as int),
            g <= config.max_generations,
            config.acceptance_score == 0 && config.max_generations >= 1 ==> g == 0,
            elite_ok(elite, weapon_count as int, enemy_count as int),
            match elite {
                Option::None => true,
                Option::Some(b) => b.score == sample_score(b, *target, *cache),
            },
        decreases config.max_generations - g,
    {
        let total = evaluate_population(&mut samples, target, cache);
        match find_acceptable(&samples, config.acceptance_score) {
            Option::Some(idx) => {
                let winner_score = samples[idx].score;
                let keep_elite = match &elite {
                    Option::Some(b) => b.score >= winner_score,
                    Option::None => false,
                };
                if keep_elite {
                    return EvolutionOutcome { best: elite, generations: g };
                } else {
                    return EvolutionOutcome {
                        best: Option::Some(samples[idx].duplicate()),
                        generations: g,
                    };
                }
            },
            Option::None => {
                proof {
                    if config.acceptance_score == 0 {
                        assert(samples@[0].score < config.acceptance_score);
                        assert(false);
                    }
                }
            },
        }
        let ghost elite_before = elite;
        let selected = select_population(
            &samples,
            total,
            config.population_size,
            elite,
            weapon_count,
            enemy_count,
            rng,
        );
        let survivors = selected.0;
        elite = selected.1;
        proof {
            match &elite {
                Option::None => {},
                Option::Some(b) => {
                    if elite_before != Option::Some(*b) {
                        let k = choose|k: int|
                            0 <= k < samples@.len() && #[trigger] same_sample(*b, samples@[k]);
                        assert(b.score == sample_score(*b, *target, *cache));
                    }
                },
            }
        }
        samples = breed_next_generation(
            survivors,
            &elite,
            config.population_size,
            weapon_count,
            enemy_count,
            rng,
        );
        g = g + 1;
    }
    EvolutionOutcome { best: elite, generations: g }
}

} // verus!
