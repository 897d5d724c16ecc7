//! Candidate solutions: one weapon configuration per weapon type and
//! one enemy configuration per enemy type, plus a fitness score.
//!
//! Crossover is split in two: drawing a random plan (per field, an
//! inherit coin, a mutation coin and a fresh value), and applying a
//! plan, which is a pure function with an exact contract.

use vstd::prelude::*;
use crate::combat::{Enemy, Weapon};
use crate::rng::{coin, gen_u32_range};

verus! {

/// One candidate solution.
#[derive(Debug)]
pub struct Sample {
    /// One configuration per weapon type of the catalog.
    pub weapons: Vec<Weapon>,
    /// One configuration per enemy type of the catalog.
    pub enemies: Vec<Enemy>,
    /// Fitness, recomputed from scratch every generation; higher is
    /// better.
    pub score: u64,
}

impl Sample {
    /// Every configuration lies in its domain.
    pub open spec fn wf(self) -> bool {
        &&& forall|i: int| 0 <= i < self.weapons@.len() ==> (#[trigger] self.weapons@[i]).wf()
        &&& forall|i: int| 0 <= i < self.enemies@.len() ==> (#[trigger] self.enemies@[i]).wf()
    }

    /// An element-for-element copy.
    pub fn duplicate(&self) -> (r: Sample)
        ensures
            r.weapons@ == self.weapons@,
            r.enemies@ == self.enemies@,
            r.score == self.score,
    {
        let mut weapons: Vec<Weapon> = Vec::new();
        let mut i: usize = 0;
        while i < self.weapons.len()
            invariant
                i <= self.weapons@.len(),
                weapons@ == self.weapons@.subrange(0, i as int),
            decreases self.weapons@.len() - i,
        {
            weapons.push(self.weapons[i]);
            proof {
                assert(weapons@ =~= self.weapons@.subrange(0, i + 1));
            }
            i = i + 1;
        }
        let mut enemies: Vec<Enemy> = Vec::new();
        let mut j: usize = 0;
        while j < self.enemies.len()
            invariant
                j <= self.enemies@.len(),
                enemies@ == self.enemies@.subrange(0, j as int),
            decreases self.enemies@.len() - j,
        {
            enemies.push(self.enemies[j]);
            proof {
                assert(enemies@ =~= self.enemies@.subrange(0, j + 1));
            }
            j = j + 1;
        }
        proof {
            assert(weapons@ =~= self.weapons@);
            assert(enemies@ =~= self.enemies@);
        }
        Sample { weapons, enemies, score: self.score }
    }
}

impl Weapon {
    /// A weapon configuration with every field drawn uniformly from
    /// its domain.
    pub fn generate_random(rng: &mut rand::rngs::ThreadRng) -> (r: Weapon)
        ensures
            r.wf(),
    {
        Weapon {
            dice_count: gen_u32_range(rng, 1, 26),
            modifier: gen_u32_range(rng, 1, 13),
            armor_multiplier_tenths: gen_u32_range(rng, 1, 21),
            health_multiplier_halves: gen_u32_range(rng, 1, 5),
        }
    }
}

impl Enemy {
    /// An enemy configuration with every field drawn uniformly from
    /// its domain.
    pub fn generate_random(rng: &mut rand::rngs::ThreadRng) -> (r: Enemy)
        ensures
            r.wf(),
    {
        Enemy { health: gen_u32_range(rng, 1, 101), armor: gen_u32_range(rng, 0, 101) }
    }
}

/// The crossover decision for one field: whether to consider the
/// partner's value at all, whether to mutate fresh instead of copying
/// it, and the fresh value to use in that case.
#[derive(Clone, Copy, Debug, PartialEq, Eq, Structural)]
pub struct FieldPlan {
    pub inherit: bool,
    pub mutate: bool,
    pub fresh: u32,
}

/// The crossover decisions for the four fields of one weapon.
#[derive(Clone, Copy, Debug, PartialEq, Eq, Structural)]
pub struct WeaponPlan {
    pub dice: FieldPlan,
    pub modifier: FieldPlan,
    pub armor: FieldPlan,
    pub health: FieldPlan,
}

/// The crossover decisions for the two fields of one enemy.
#[derive(Clone, Copy, Debug, PartialEq, Eq, Structural)]
pub struct EnemyPlan {
    pub health: FieldPlan,
    pub armor: FieldPlan,
}

impl WeaponPlan {
    /// Each fresh value lies in its field's domain.
    pub open spec fn wf(self) -> bool {
        &&& 1 <= self.dice.fresh <= 25
        &&& 1 <= self.modifier.fresh <= 12
        &&& 1 <= self.armor.fresh <= 20
        &&& 1 <= self.health.fresh <= 4
    }
}

impl EnemyPlan {
    /// Each fresh value lies in its field's domain.
    pub open spec fn wf(self) -> bool {
        &&& 1 <= self.health.fresh <= 100
        &&& self.armor.fresh <= 100
    }
}

/// One field after crossover: kept from the current parent, inherited
/// from the partner, or mutated to the fresh value.
pub open spec fn combined_field(current: u32, partner: u32, plan: FieldPlan) -> u32 {
    if plan.inherit {
        if plan.mutate {
            plan.fresh
        } else {
            partner
        }
    } else {
        current
    }
}

/// A weapon after crossover, field by field.
pub open spec fn combined_weapon(mother: Weapon, father: Weapon, plan: WeaponPlan) -> Weapon {
    Weapon {
        dice_count: combined_field(mother.dice_count, father.dice_count, plan.dice),
        modifier: combined_field(mother.modifier, father.modifier, plan.modifier),
        armor_multiplier_tenths: combined_field(
            mother.armor_multiplier_tenths,
            father.armor_multiplier_tenths,
            plan.armor,
        ),
        health_multiplier_halves: combined_field(
            mother.health_multiplier_halves,
            father.health_multiplier_halves,
            plan.health,
        ),
    }
}

/// An enemy after crossover, field by field.
pub open spec fn combined_enemy(mother: Enemy, father: Enemy, plan: EnemyPlan) -> Enemy {
    Enemy {
        health: combined_field(mother.health, father.health, plan.health),
        armor: combined_field(mother.armor, father.armor, plan.armor),
    }
}

/// Applies one field's crossover decision.
fn apply_field(current: u32, partner: u32, plan: FieldPlan) -> (r: u32)
    ensures
        r == combined_field(current, partner, plan),
{
    if plan.inherit {
        if plan.mutate {
            plan.fresh
        } else {
            partner
        }
    } else {
        current
    }
}

/// Applies one weapon's crossover decisions; the result is well
/// formed whenever the parents and the plan are.
pub fn apply_weapon_plan(mother: &Weapon, father: &Weapon, plan: &WeaponPlan) -> (r: Weapon)
    ensures
        r == combined_weapon(*mother, *father, *plan),
        mother.wf() && father.wf() && plan.wf() ==> r.wf(),
{
    Weapon {
        dice_count: apply_field(mother.dice_count, father.dice_count, plan.dice),
        modifier: apply_field(mother.modifier, father.modifier, plan.modifier),
        armor_multiplier_tenths: apply_field(
            mother.armor_multiplier_tenths,
            father.armor_multiplier_tenths,
            plan.armor,
        ),
        health_multiplier_halves: apply_field(
            mother.health_multiplier_halves,
            father.health_multiplier_halves,
            plan.health,
        ),
    }
}

/// Applies one enemy's crossover decisions; the result is well formed
/// whenever the parents and the plan are.
pub fn apply_enemy_plan(mother: &Enemy, father: &Enemy, plan: &EnemyPlan) -> (r: Enemy)
    ensures
        r == combined_enemy(*mother, *father, *plan),
        mother.wf() && father.wf() && plan.wf() ==> r.wf(),
{
    Enemy {
        health: apply_field(mother.health, father.health, plan.health),
        armor: apply_field(mother.armor, father.armor, plan.armor),
    }
}

/// Draws one field's crossover decision: consider the partner with
/// probability one half, mutate with probability one hundredth, and a
/// fresh value uniform in `lo..=hi`.
fn draw_field_plan(rng: &mut rand::rngs::ThreadRng, lo: u32, hi: u32) -> (r: FieldPlan)
    requires
        lo <= hi,
        hi < 0xffff_ffffu32,
    ensures
        lo <= r.fresh <= hi,
{
    let inherit = coin(rng, 1, 2);
    let mutate = coin(rng, 1, 100);
    let fresh = gen_u32_range(rng, lo, hi + 1);
    FieldPlan { inherit, mutate, fresh }
}

/// Draws the crossover decisions for one weapon.
fn draw_weapon_plan(rng: &mut rand::rngs::ThreadRng) -> (r: WeaponPlan)
    ensures
        r.wf(),
{
    WeaponPlan {
        dice: draw_field_plan(rng, 1, 25),
        modifier: draw_field_plan(rng, 1, 12),
        armor: draw_field_plan(rng, 1, 20),
        health: draw_field_plan(rng, 1, 4),
    }
}

/// Draws the crossover decisions for one enemy.
fn draw_enemy_plan(rng: &mut rand::rngs::ThreadRng) -> (r: EnemyPlan)
    ensures
        r.wf(),
{
    EnemyPlan { health: draw_field_plan(rng, 1, 100), armor: draw_field_plan(rng, 0, 100) }
}

impl Sample {
    /// A sample with every configuration drawn uniformly from its
    /// domain and the score initialized to zero.
    pub fn generate_random(
        weapon_count: usize,
        enemy_count: usize,
        rng: &mut rand::rngs::ThreadRng,
    ) -> (r: Sample)
        ensures
            r.wf(),
            r.weapons@.len() == weapon_count,
            r.enemies@.len() == enemy_count,
            r.score == 0,
    {
        let mut weapons: Vec<Weapon> = Vec::new();
        let mut i: usize = 0;
        while i < weapon_count
            invariant
                i <= weapon_count,
                weapons@.len() == i,
                forall|k: int| 0 <= k < weapons@.len() ==> (#[trigger] weapons@[k]).wf(),
            decreases weapon_count - i,
        {
            weapons.push(Weapon::generate_random(rng));
            i = i + 1;
        }
        let mut enemies: Vec<Enemy> = Vec::new();
        let mut j: usize = 0;
        while j < enemy_count
            invariant
                j <= enemy_count,
                enemies@.len() == j,
                forall|k: int| 0 <= k < enemies@.len() ==> (#[trigger] enemies@[k]).wf(),
            decreases enemy_count - j,
        {
            enemies.push(Enemy::generate_random(rng));
            j = j + 1;
        }
        Sample { weapons, enemies, score: 0 }
    }

    /// The pure half of breeding: applies given crossover plans to
    /// this sample (the mother) and a partner (the father), producing
    /// a child with its score reset to zero.
    pub fn crossover(
        &self,
        partner: &Sample,
        weapon_plans: &Vec<WeaponPlan>,
        enemy_plans: &Vec<EnemyPlan>,
    ) -> (child: Sample)
        requires
            self.wf(),
            partner.wf(),
            self.weapons@.len() == partner.weapons@.len(),
            self.enemies@.len() == partner.enemies@.len(),
            weapon_plans@.len() == self.weapons@.len(),
            enemy_plans@.len() == self.enemies@.len(),
            forall|i: int|
                0 <= i < weapon_plans@.len() ==> (#[trigger] weapon_plans@[i]).wf(),
            forall|i: int| 0 <= i < enemy_plans@.len() ==> (#[trigger] enemy_plans@[i]).wf(),
        ensures
            child.wf(),
            child.weapons@.len() == self.weapons@.len(),
            child.enemies@.len() == self.enemies@.len(),
            child.score == 0,
            forall|i: int|
                0 <= i < child.weapons@.len() ==> #[trigger] child.weapons@[i] == combined_weapon(
                    self.weapons@[i],
                    partner.weapons@[i],
                    weapon_plans@[i],
                ),
            forall|i: int|
                0 <= i < child.enemies@.len() ==> #[trigger] child.enemies@[i] == combined_enemy(
                    self.enemies@[i],
                    partner.enemies@[i],
                    enemy_plans@[i],
                ),
    {
        let mut weapons: Vec<Weapon> = Vec::new();
        let mut i: usize = 0;
        while i < self.weapons.len()
            invariant
                self.wf(),
                partner.wf(),
                self.weapons@.len() == partner.weapons@.len(),
                weapon_plans@.len() == self.weapons@.len(),
                forall|k: int|
                    0 <= k < weapon_plans@.len() ==> (#[trigger] weapon_plans@[k]).wf(),
                i <= self.weapons@.len(),
                weapons@.len() == i,
                forall|k: int| 0 <= k < weapons@.len() ==> (#[trigger] weapons@[k]).wf(),
                forall|k: int|
                    0 <= k < weapons@.len() ==> #[trigger] weapons@[k] == combined_weapon(
                        self.weapons@[k],
                        partner.weapons@[k],
                        weapon_plans@[k],
                    ),
            decreases self.weapons@.len() - i,
        {
            let w = apply_weapon_plan(&self.weapons[i], &partner.weapons[i], &weapon_plans[i]);
            weapons.push(w);
            i = i + 1;
        }
        let mut enemies: Vec<Enemy> = Vec::new();
        let mut j: usize = 0;
        while j < self.enemies.len()
            invariant
                self.wf(),
                partner.wf(),
                self.enemies@.len() == partner.enemies@.len(),
                enemy_plans@.len() == self.enemies@.len(),
                forall|k: int| 0 <= k < enemy_plans@.len() ==> (#[trigger] enemy_plans@[k]).wf(),
                j <= self.enemies@.len(),
                enemies@.len() == j,
                forall|k: int| 0 <= k < enemies@.len() ==> (#[trigger] enemies@[k]).wf(),
                forall|k: int|
                    0 <= k < enemies@.len() ==> #[trigger] enemies@[k] == combined_enemy(
                        self.enemies@[k],
                        partner.enemies@[k],
                        enemy_plans@[k],
                    ),
            decreases self.enemies@.len() - j,
        {
            let e = apply_enemy_plan(&self.enemies[j], &partner.enemies[j], &enemy_plans[j]);
            enemies.push(e);
            j = j + 1;
        }
        Sample { weapons, enemies, score: 0 }
    }

    /// Breeds this sample (the mother) with a partner (the father):
    /// per field, with probability one half the partner's value is
    /// considered, and in that case, with probability one hundredth,
    /// the field is re-drawn fresh from its domain instead.
    pub fn breed_with(&self, rng: &mut rand::rngs::ThreadRng, partner: &Sample) -> (child: Sample)
        requires
            self.wf(),
            partner.wf(),
            self.weapons@.len() == partner.weapons@.len(),
            self.enemies@.len() == partner.enemies@.len(),
        ensures
            child.wf(),
            child.weapons@.len() == self.weapons@.len(),
            child.enemies@.len() == self.enemies@.len(),
            child.score == 0,
    {
        let mut weapon_plans: Vec<WeaponPlan> = Vec::new();
        let mut i: usize = 0;
        while i < self.weapons.len()
            invariant
                i <= self.weapons@.len(),
                weapon_plans@.len() == i,
                forall|k: int|
                    0 <= k < weapon_plans@.len() ==> (#[trigger] weapon_plans@[k]).wf(),
            decreases self.weapons@.len() - i,
        {
            weapon_plans.push(draw_weapon_plan(rng));
            i = i + 1;
        }
        let mut enemy_plans: Vec<EnemyPlan> = Vec::new();
        let mut j: usize = 0;
        while j < self.enemies.len()
            invariant
                j <= self.enemies@.len(),
                enemy_plans@.len() == j,
                forall|k: int| 0 <= k < enemy_plans@.len() ==> (#[trigger] enemy_plans@[k]).wf(),
            decreases self.enemies@.len() - j,
        {
            enemy_plans.push(draw_enemy_plan(rng));
            j = j + 1;
        }
        self.crossover(partner, &weapon_plans, &enemy_plans)
    }
}

/// Law: a child bred from two field-identical parents is, ignoring
/// the mutation branch, field-identical to both parents.
pub proof fn lemma_breeding_identity(
    mother: Sample,
    father: Sample,
    weapon_plans: Seq<WeaponPlan>,
    enemy_plans: Seq<EnemyPlan>,
    child: Sample,
)
    requires
        mother.weapons@ == father.weapons@,
        mother.enemies@ == father.enemies@,
        weapon_plans.len() == mother.weapons@.len(),
        enemy_plans.len() == mother.enemies@.len(),
        child.weapons@.len() == mother.weapons@.len(),
        child.enemies@.len() == mother.enemies@.len(),
        forall|i: int|
            0 <= i < child.weapons@.len() ==> #[trigger] child.weapons@[i] == combined_weapon(
                mother.weapons@[i],
                father.weapons@[i],
                weapon_plans[i],
            ),
        forall|i: int|
            0 <= i < child.enemies@.len() ==> #[trigger] child.enemies@[i] == combined_enemy(
                mother.enemies@[i],
                father.enemies@[i],
                enemy_plans[i],
            ),
        forall|i: int|
            0 <= i < weapon_plans.len() ==> {
                &&& !(#[trigger] weapon_plans[i]).dice.mutate
                &&& !weapon_plans[i].modifier.mutate
                &&& !weapon_plans[i].armor.mutate
                &&& !weapon_plans[i].health.mutate
            },
        forall|i: int|
            0 <= i < enemy_plans.len() ==> {
                &&& !(#[trigger] enemy_plans[i]).health.mutate
                &&& !enemy_plans[i].armor.mutate
            },
    ensures
        child.weapons@ == mother.weapons@,
        child.enemies@ == mother.enemies@,
{
    assert forall|i: int| 0 <= i < child.weapons@.len() implies child.weapons@[i]
        == mother.weapons@[i] by {
        assert(father.weapons@[i] == mother.weapons@[i]);
    }
    assert forall|i: int| 0 <= i < child.enemies@.len() implies child.enemies@[i]
        == mother.enemies@[i] by {
        assert(father.enemies@[i] == mother.enemies@[i]);
    }
    assert(child.weapons@ =~= mother.weapons@);
    assert(child.enemies@ =~= mother.enemies@);
}

} // verus!
