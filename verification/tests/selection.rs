//! Tests of the selection rule, the breeding quotas, and
//! replenishment.

use balance_evolver::evolve::{
    breed_counts, breed_next_generation, decide_selection, find_acceptable, replenish,
    select_population, SelectionDecision,
};
use balance_evolver::rng::fresh_rng;
use balance_evolver::sample::Sample;

fn scored(score: u64) -> Sample {
    Sample { weapons: Vec::new(), enemies: Vec::new(), score }
}

#[test]
fn at_or_below_mean_is_never_promoted() {
    // Five samples scoring 1..=5: total 15, mean 3. Scores at or
    // below the mean are discarded outright, whatever the elite.
    for score in 1u64..=3 {
        for elite_score in [0u64, 2, 10] {
            assert_eq!(
                decide_selection(score, 15, 5, elite_score),
                SelectionDecision::Discard
            );
        }
    }
}

#[test]
fn above_mean_promotes_only_past_the_elite() {
    assert_eq!(decide_selection(4, 15, 5, 0), SelectionDecision::PromoteElite);
    assert_eq!(decide_selection(5, 15, 5, 4), SelectionDecision::PromoteElite);
    // Not strictly better than the elite: roulette, never promotion.
    assert_eq!(decide_selection(5, 15, 5, 5), SelectionDecision::Roulette);
    assert_eq!(decide_selection(5, 15, 5, 10), SelectionDecision::Roulette);
}

#[test]
fn selection_pass_scores_one_to_five() {
    // With scores [1,2,3,4,5] and no prior elite, the pass is fully
    // deterministic: 1..=3 are dropped, 4 and then 5 each beat the
    // current elite and are kept unconditionally.
    let samples: Vec<Sample> = (1u64..=5).map(scored).collect();
    let mut rng = fresh_rng();
    let (survivors, elite) = select_population(&samples, 15, 5, None, 0, 0, &mut rng);
    let scores: Vec<u64> = survivors.iter().map(|s| s.score).collect();
    assert_eq!(scores, vec![4, 5]);
    assert_eq!(elite.expect("an elite must have been promoted").score, 5);
}

#[test]
fn selection_keeps_a_stronger_prior_elite() {
    let samples: Vec<Sample> = (1u64..=5).map(scored).collect();
    let mut rng = fresh_rng();
    let prior = Some(scored(100));
    let (_, elite) = select_population(&samples, 15, 5, prior, 0, 0, &mut rng);
    assert_eq!(elite.expect("the prior elite must survive").score, 100);
}

#[test]
fn breeding_quotas_round_to_nearest() {
    assert_eq!(breed_counts(0), (0, 0));
    assert_eq!(breed_counts(1), (0, 1));
    assert_eq!(breed_counts(5), (1, 3));
    assert_eq!(breed_counts(10), (1, 6));
    assert_eq!(breed_counts(30), (3, 18));
    assert_eq!(breed_counts(100), (10, 60));
    for lack in 0usize..=200 {
        let (a, b) = breed_counts(lack);
        assert!(a + b <= lack);
    }
}

#[test]
fn replenishment_fills_exactly_to_population_size() {
    // A shortfall of exactly 3: exactly 3 fresh random samples are
    // appended and the final population is exactly the target size.
    let mut rng = fresh_rng();
    let mut population: Vec<Sample> = Vec::new();
    for _ in 0..17 {
        population.push(Sample::generate_random(2, 2, &mut rng));
    }
    let kept: Vec<u64> = population.iter().map(|s| s.score).collect();
    let before: Vec<Sample> = population.iter().map(|s| s.duplicate()).collect();
    replenish(&mut population, 20, 2, 2, &mut rng);
    assert_eq!(population.len(), 20);
    for i in 0..17 {
        assert_eq!(population[i].score, kept[i]);
        for w in 0..2 {
            assert_eq!(population[i].weapons[w], before[i].weapons[w]);
        }
        for e in 0..2 {
            assert_eq!(population[i].enemies[e], before[i].enemies[e]);
        }
    }
    for i in 17..20 {
        assert_eq!(population[i].score, 0);
        assert_eq!(population[i].weapons.len(), 2);
        assert_eq!(population[i].enemies.len(), 2);
    }
}

#[test]
fn the_elite_stands_in_the_set_that_breeds() {
    // The previous elite is re-inserted right after the survivors,
    // which stay untouched in front of it, and the next generation
    // is filled back to its exact size.
    let mut rng = fresh_rng();
    let mut survivors = Vec::new();
    for _ in 0..3 {
        survivors.push(Sample::generate_random(2, 2, &mut rng));
    }
    let kept: Vec<Sample> = survivors.iter().map(|s| s.duplicate()).collect();
    let mut elite_sample = Sample::generate_random(2, 2, &mut rng);
    elite_sample.score = 4242;
    let elite = Some(elite_sample.duplicate());
    let next = breed_next_generation(survivors, &elite, 12, 2, 2, &mut rng);
    assert_eq!(next.len(), 12);
    for i in 0..3 {
        assert_eq!(next[i].score, kept[i].score);
        for w in 0..2 {
            assert_eq!(next[i].weapons[w], kept[i].weapons[w]);
        }
        for e in 0..2 {
            assert_eq!(next[i].enemies[e], kept[i].enemies[e]);
        }
    }
    assert_eq!(next[3].score, 4242);
    for w in 0..2 {
        assert_eq!(next[3].weapons[w], elite_sample.weapons[w]);
    }
    for e in 0..2 {
        assert_eq!(next[3].enemies[e], elite_sample.enemies[e]);
    }
}

#[test]
fn acceptance_scan_finds_the_best() {
    let samples: Vec<Sample> = vec![scored(3), scored(7), scored(5)];
    assert_eq!(find_acceptable(&samples, 6), Some(1));
    assert_eq!(find_acceptable(&samples, 7), Some(1));
    assert_eq!(find_acceptable(&samples, 8), None);
    assert_eq!(find_acceptable(&Vec::new(), 0), None);
}

#[test]
fn roulette_draws_stay_under_their_bound() {
    // A selection pass whose samples all tie an unbeatable elite goes
    // through the roulette; whatever the draws, survivors are a
    // subset of the above-mean samples.
    let samples: Vec<Sample> = vec![scored(1), scored(1), scored(4), scored(4)];
    let mut rng = fresh_rng();
    for _ in 0..50 {
        let (survivors, elite) =
            select_population(&samples, 10, 4, Some(scored(4)), 0, 0, &mut rng);
        assert!(survivors.len() <= 2);
        assert!(survivors.iter().all(|s| s.score == 4));
        assert_eq!(elite.expect("the prior elite stays").score, 4);
    }
}
