//! Tests of the combat model: the damage formula, its monotonicity,
//! and the time-to-kill bridge with its sentinel cases.

use balance_evolver::combat::{Enemy, Weapon, UNKILLABLE};
use balance_evolver::dice::{DiceDistribution, DiceDistributionCache};
use balance_evolver::rng::fresh_rng;

fn cache_with_unit_distributions() -> DiceDistributionCache {
    // A deterministic cache: for `n` dice, all mass sits on the sum `n`.
    let mut distributions = Vec::new();
    for n in 1u32..=25 {
        let mut counts = vec![0u32; (5 * n + 1) as usize];
        counts[0] = 10000;
        distributions.push(DiceDistribution { dice_count: n, counts, total: 10000 });
    }
    DiceDistributionCache { distributions }
}

fn single_distribution_cache(counts: Vec<u32>, total: u32) -> DiceDistributionCache {
    let distributions = vec![DiceDistribution { dice_count: 1, counts, total }];
    DiceDistributionCache { distributions }
}

#[test]
fn damage_exact_values() {
    let enemy = Enemy { health: 50, armor: 10 };
    let weapon = Weapon {
        dice_count: 2,
        modifier: 3,
        armor_multiplier_tenths: 10,
        health_multiplier_halves: 2,
    };
    // armor cut = round(10 * 1.0) = 10; roll 7 + 3 = 10 is fully absorbed.
    assert_eq!(enemy.expected_damage(&weapon, 7), 0);
    // roll 12 + 3 = 15, minus 10 leaves 5, times 1.0.
    assert_eq!(enemy.expected_damage(&weapon, 12), 5);
    // A health multiplier of 1.5 truncates: 5 * 3 / 2 = 7.
    let heavier = Weapon { health_multiplier_halves: 3, ..weapon };
    assert_eq!(enemy.expected_damage(&heavier, 12), 7);
}

#[test]
fn damage_monotonic_in_roll_sum() {
    let enemy = Enemy { health: 80, armor: 37 };
    let weapon = Weapon {
        dice_count: 25,
        modifier: 7,
        armor_multiplier_tenths: 13,
        health_multiplier_halves: 3,
    };
    let mut previous = enemy.expected_damage(&weapon, 0);
    for roll in 1u32..=150 {
        let current = enemy.expected_damage(&weapon, roll);
        assert!(current >= previous);
        previous = current;
    }
}

#[test]
fn damage_antitone_in_armor() {
    let weapon = Weapon {
        dice_count: 10,
        modifier: 12,
        armor_multiplier_tenths: 20,
        health_multiplier_halves: 4,
    };
    let mut previous = Enemy { health: 60, armor: 0 }.expected_damage(&weapon, 60);
    for armor in 1u32..=100 {
        let current = Enemy { health: 60, armor }.expected_damage(&weapon, 60);
        assert!(current <= previous);
        previous = current;
    }
}

#[test]
fn time_to_kill_exact_value() {
    // All mass on the dice sum 6: damage is (6 + 3) * 1.0 = 9 per
    // attack against an unarmored enemy, so 50 health dies in
    // round(50 / 9) = 6 steps.
    let cache = single_distribution_cache(vec![0, 0, 0, 0, 0, 10000], 10000);
    let weapon = Weapon {
        dice_count: 1,
        modifier: 3,
        armor_multiplier_tenths: 10,
        health_multiplier_halves: 2,
    };
    let enemy = Enemy { health: 50, armor: 0 };
    assert_eq!(enemy.expected_time_to_kill(&cache, &weapon), 6);
}

#[test]
fn time_to_kill_sentinel_on_zero_average() {
    // Armor absorbs every roll: the average damage is 0 < 0.1.
    let cache = single_distribution_cache(vec![0, 0, 0, 0, 0, 10000], 10000);
    let weapon = Weapon {
        dice_count: 1,
        modifier: 3,
        armor_multiplier_tenths: 10,
        health_multiplier_halves: 2,
    };
    let enemy = Enemy { health: 50, armor: 10 };
    assert_eq!(enemy.expected_time_to_kill(&cache, &weapon), UNKILLABLE);
}

#[test]
fn time_to_kill_sentinel_on_step_budget() {
    // Average damage 0.2 (above the 0.1 epsilon), but
    // round(100 / 0.2) = 500 steps exceed the budget of 300.
    let cache = single_distribution_cache(vec![8000, 0, 0, 0, 0, 2000], 10000);
    let weapon = Weapon {
        dice_count: 1,
        modifier: 1,
        armor_multiplier_tenths: 10,
        health_multiplier_halves: 1,
    };
    let enemy = Enemy { health: 100, armor: 5 };
    assert_eq!(enemy.expected_time_to_kill(&cache, &weapon), UNKILLABLE);
}

#[test]
fn sampled_distribution_masses_sum_to_one() {
    // The probability masses over all achievable sums add up to one:
    // the counts add up exactly to the number of draws.
    let mut rng = fresh_rng();
    for n in 1u32..=5 {
        let d = DiceDistribution::precomputed_for(n, &mut rng);
        assert_eq!(d.dice_count, n);
        assert_eq!(d.total, 10000);
        assert_eq!(d.counts.len() as u32, 5 * n + 1);
        let sum: u64 = d.counts.iter().map(|&c| c as u64).sum();
        assert_eq!(sum, 10000);
    }
}

#[test]
fn sampled_distribution_spreads_over_several_sums() {
    // Ten thousand draws of one die land on more than one face; a
    // generator that returned a constant would put all mass on one
    // sum.
    let mut rng = fresh_rng();
    let d = DiceDistribution::precomputed_for(1, &mut rng);
    let nonzero = d.counts.iter().filter(|&&c| c > 0).count();
    assert!(nonzero >= 2);
    assert!(d.counts.iter().all(|&c| c < 10000));
}

#[test]
fn count_for_sum_reads_the_tally() {
    let d = DiceDistribution { dice_count: 1, counts: vec![1, 2, 3, 4, 5, 9985], total: 10000 };
    assert_eq!(d.count_for_sum(1), 1);
    assert_eq!(d.count_for_sum(4), 4);
    assert_eq!(d.count_for_sum(6), 9985);
}

#[test]
fn cache_serves_each_dice_count() {
    let mut rng = fresh_rng();
    let cache = DiceDistributionCache::precomputed(3, &mut rng);
    assert_eq!(cache.distributions.len(), 3);
    for n in 1u32..=3 {
        assert_eq!(cache.distribution_for(n).dice_count, n);
    }
}

#[test]
fn deterministic_cache_is_usable_end_to_end() {
    let cache = cache_with_unit_distributions();
    // With all mass on the sum 1: damage (1 + 3) * 1.0 = 4, so 50
    // health dies in round(50 / 4) = 13 steps.
    let weapon = Weapon {
        dice_count: 1,
        modifier: 3,
        armor_multiplier_tenths: 10,
        health_multiplier_halves: 2,
    };
    let enemy = Enemy { health: 50, armor: 0 };
    assert_eq!(enemy.expected_time_to_kill(&cache, &weapon), 13);
}
