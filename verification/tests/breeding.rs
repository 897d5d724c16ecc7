//! Tests of sample generation and crossover.

use balance_evolver::combat::{Enemy, Weapon};
use balance_evolver::rng::fresh_rng;
use balance_evolver::sample::{EnemyPlan, FieldPlan, Sample, WeaponPlan};

fn weapon_in_domain(w: &Weapon) -> bool {
    (1..=25).contains(&w.dice_count)
        && (1..=12).contains(&w.modifier)
        && (1..=20).contains(&w.armor_multiplier_tenths)
        && (1..=4).contains(&w.health_multiplier_halves)
}

fn enemy_in_domain(e: &Enemy) -> bool {
    (1..=100).contains(&e.health) && e.armor <= 100
}

fn plan(inherit: bool, mutate: bool, fresh: u32) -> FieldPlan {
    FieldPlan { inherit, mutate, fresh }
}

#[test]
fn generated_sample_is_in_domain() {
    let mut rng = fresh_rng();
    let s = Sample::generate_random(5, 20, &mut rng);
    assert_eq!(s.weapons.len(), 5);
    assert_eq!(s.enemies.len(), 20);
    assert_eq!(s.score, 0);
    assert!(s.weapons.iter().all(weapon_in_domain));
    assert!(s.enemies.iter().all(enemy_in_domain));
}

#[test]
fn crossover_of_identical_parents_without_mutation_is_identity() {
    // Bred from two field-identical parents, and with the mutation
    // branch never taken, the child equals both parents, whatever
    // the inherit coins said.
    let mut rng = fresh_rng();
    let mother = Sample::generate_random(3, 4, &mut rng);
    let father = mother.duplicate();
    let weapon_plans: Vec<WeaponPlan> = (0..3)
        .map(|i| WeaponPlan {
            dice: plan(i % 2 == 0, false, 7),
            modifier: plan(i % 2 == 1, false, 7),
            armor: plan(true, false, 7),
            health: plan(false, false, 2),
        })
        .collect();
    let enemy_plans: Vec<EnemyPlan> = (0..4)
        .map(|i| EnemyPlan { health: plan(i % 2 == 0, false, 50), armor: plan(true, false, 50) })
        .collect();
    let child = mother.crossover(&father, &weapon_plans, &enemy_plans);
    assert_eq!(child.score, 0);
    for i in 0..3 {
        assert_eq!(child.weapons[i], mother.weapons[i]);
    }
    for i in 0..4 {
        assert_eq!(child.enemies[i], mother.enemies[i]);
    }
}

#[test]
fn crossover_follows_the_plans_exactly() {
    let mother = Sample {
        weapons: vec![Weapon {
            dice_count: 1,
            modifier: 2,
            armor_multiplier_tenths: 3,
            health_multiplier_halves: 4,
        }],
        enemies: vec![Enemy { health: 10, armor: 20 }],
        score: 99,
    };
    let father = Sample {
        weapons: vec![Weapon {
            dice_count: 21,
            modifier: 12,
            armor_multiplier_tenths: 13,
            health_multiplier_halves: 1,
        }],
        enemies: vec![Enemy { health: 90, armor: 80 }],
        score: 77,
    };
    let weapon_plans = vec![WeaponPlan {
        dice: plan(false, false, 9),  // kept from the mother
        modifier: plan(true, false, 9),  // inherited from the father
        armor: plan(true, true, 9),  // mutated fresh
        health: plan(false, true, 3),  // no inherit: mutation flag is moot
    }];
    let enemy_plans = vec![EnemyPlan {
        health: plan(true, false, 33),  // inherited from the father
        armor: plan(true, true, 33),  // mutated fresh
    }];
    let child = mother.crossover(&father, &weapon_plans, &enemy_plans);
    assert_eq!(child.weapons[0].dice_count, 1);
    assert_eq!(child.weapons[0].modifier, 12);
    assert_eq!(child.weapons[0].armor_multiplier_tenths, 9);
    assert_eq!(child.weapons[0].health_multiplier_halves, 4);
    assert_eq!(child.enemies[0].health, 90);
    assert_eq!(child.enemies[0].armor, 33);
    assert_eq!(child.score, 0);
}

#[test]
fn bred_child_stays_in_domain() {
    let mut rng = fresh_rng();
    let mother = Sample::generate_random(4, 6, &mut rng);
    let father = Sample::generate_random(4, 6, &mut rng);
    for _ in 0..50 {
        let child = mother.breed_with(&mut rng, &father);
        assert_eq!(child.weapons.len(), 4);
        assert_eq!(child.enemies.len(), 6);
        assert_eq!(child.score, 0);
        assert!(child.weapons.iter().all(weapon_in_domain));
        assert!(child.enemies.iter().all(enemy_in_domain));
    }
}

#[test]
fn duplicate_copies_every_field() {
    let mut rng = fresh_rng();
    let mut s = Sample::generate_random(2, 3, &mut rng);
    s.score = 4242;
    let copy = s.duplicate();
    assert_eq!(copy.score, 4242);
    assert_eq!(copy.weapons.len(), 2);
    assert_eq!(copy.enemies.len(), 3);
    for i in 0..2 {
        assert_eq!(copy.weapons[i], s.weapons[i]);
    }
    for i in 0..3 {
        assert_eq!(copy.enemies[i], s.enemies[i]);
    }
}
