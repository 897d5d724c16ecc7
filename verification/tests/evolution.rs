//! Tests of fitness scoring and the full generational loop.

use balance_evolver::combat::{Enemy, Weapon};
use balance_evolver::dice::{DiceDistribution, DiceDistributionCache};
use balance_evolver::evolve::{
    evaluate_population, find_acceptable, run_evolution, EvolutionConfig,
};
use balance_evolver::fitness::{score_for_error, TargetMatrix, MAX_SCORE};
use balance_evolver::rng::fresh_rng;
use balance_evolver::sample::Sample;

/// A deterministic cache: for `n` dice, all mass sits on the sum `n`.
fn unit_cache() -> DiceDistributionCache {
    let mut distributions = Vec::new();
    for n in 1u32..=25 {
        let mut counts = vec![0u32; (5 * n + 1) as usize];
        counts[0] = 10000;
        distributions.push(DiceDistribution { dice_count: n, counts, total: 10000 });
    }
    DiceDistributionCache { distributions }
}

#[test]
fn score_is_inverse_error_in_fixed_point() {
    assert_eq!(score_for_error(0), MAX_SCORE);
    assert_eq!(score_for_error(1), MAX_SCORE);
    assert_eq!(score_for_error(4), 250_000_000_000);
    assert_eq!(score_for_error(3), 333_333_333_333);
    assert_eq!(score_for_error((MAX_SCORE as u128) * 2), 0);
}

#[test]
fn exact_error_against_a_target() {
    // All mass on the sum 1: damage (1 + 3) * 1.0 = 4 per attack, so
    // 50 health takes round(50 / 4) = 13 steps.
    let cache = unit_cache();
    let sample = Sample {
        weapons: vec![Weapon {
            dice_count: 1,
            modifier: 3,
            armor_multiplier_tenths: 10,
            health_multiplier_halves: 2,
        }],
        enemies: vec![Enemy { health: 50, armor: 0 }],
        score: 0,
    };
    let off_by_three = TargetMatrix::new(1, 1, vec![16]);
    assert_eq!(sample.total_squared_error(&off_by_three, &cache), 9);
}

#[test]
fn perfect_match_scores_the_maximum() {
    // The target equals the sample's own derived matrix, so its
    // error is zero and its score is the theoretical maximum.
    let cache = unit_cache();
    let mut sample = Sample {
        weapons: vec![
            Weapon {
                dice_count: 1,
                modifier: 3,
                armor_multiplier_tenths: 10,
                health_multiplier_halves: 2,
            },
            Weapon {
                dice_count: 4,
                modifier: 8,
                armor_multiplier_tenths: 5,
                health_multiplier_halves: 1,
            },
        ],
        enemies: vec![Enemy { health: 50, armor: 0 }, Enemy { health: 90, armor: 30 }],
        score: 7777,  // a stale score, to be overwritten
    };
    let mut entries = Vec::new();
    for w in 0..2 {
        for e in 0..2 {
            entries.push(sample.enemies[e].expected_time_to_kill(&cache, &sample.weapons[w]));
        }
    }
    let target = TargetMatrix::new(2, 2, entries);
    sample.evaluate(&target, &cache);
    assert_eq!(sample.score, MAX_SCORE);
}

#[test]
fn the_loop_stops_on_an_acceptable_sample() {
    // Once the perfect sample is evaluated, the terminal check must
    // see it: the acceptance scan returns it even at the strictest
    // threshold.
    let cache = unit_cache();
    let perfect = Sample {
        weapons: vec![Weapon {
            dice_count: 1,
            modifier: 3,
            armor_multiplier_tenths: 10,
            health_multiplier_halves: 2,
        }],
        enemies: vec![Enemy { health: 50, armor: 0 }],
        score: 0,
    };
    let target = TargetMatrix::new(
        1,
        1,
        vec![perfect.enemies[0].expected_time_to_kill(&cache, &perfect.weapons[0])],
    );
    let mut rng = fresh_rng();
    let mut population = vec![perfect];
    for _ in 0..4 {
        population.push(Sample::generate_random(1, 1, &mut rng));
    }
    let total = evaluate_population(&mut population, &target, &cache);
    assert!(total >= MAX_SCORE as u128);
    let found = find_acceptable(&population, MAX_SCORE).expect("the perfect sample is present");
    assert_eq!(population[found].score, MAX_SCORE);
}

#[test]
fn a_zero_generation_run_returns_nothing() {
    let cache = unit_cache();
    let target = TargetMatrix::new(1, 1, vec![10]);
    let config = EvolutionConfig {
        population_size: 10,
        max_generations: 0,
        acceptance_score: MAX_SCORE,
    };
    let mut rng = fresh_rng();
    let outcome = run_evolution(&target, &cache, &config, &mut rng);
    assert_eq!(outcome.generations, 0);
    assert!(outcome.best.is_none());
}

#[test]
fn a_zero_acceptance_threshold_stops_in_the_first_generation() {
    // With a threshold of zero, any first generation holds an
    // acceptable sample, so the loop must return a best sample
    // before breeding even once.
    let cache = unit_cache();
    let target = TargetMatrix::new(1, 1, vec![10]);
    let config = EvolutionConfig {
        population_size: 5,
        max_generations: 50,
        acceptance_score: 0,
    };
    let mut rng = fresh_rng();
    let outcome = run_evolution(&target, &cache, &config, &mut rng);
    assert_eq!(outcome.generations, 0);
    assert!(outcome.best.is_some());
}

#[test]
fn evolution_calibrates_a_single_pair() {
    // One weapon type, one enemy type, target time-to-kill 10:
    // population 20 and cap 200 must land within two steps of it.
    let mut rng = fresh_rng();
    let cache = DiceDistributionCache::precomputed(25, &mut rng);
    let target = TargetMatrix::new(1, 1, vec![10]);
    let config = EvolutionConfig {
        population_size: 20,
        max_generations: 200,
        // Squared error at most 4, so at most two steps off.
        acceptance_score: MAX_SCORE / 4,
    };
    let outcome = run_evolution(&target, &cache, &config, &mut rng);
    let best = outcome.best.expect("some elite must emerge");
    let derived = best.enemies[0].expected_time_to_kill(&cache, &best.weapons[0]);
    assert!(
        (derived - 10).abs() <= 2,
        "derived time-to-kill {} strays from the target 10",
        derived
    );
}
