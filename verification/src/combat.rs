//! The combat model: weapon and enemy parameter sets, and the
//! deterministic damage formula that maps a dice-roll sum to the
//! health points an enemy loses.
//!
//! Fractional multipliers are held as exact integer scales: the armor
//! multiplier in tenths (1..=20, standing for 0.1..=2.0) and the
//! health multiplier in halves (1..=4, standing for 0.5..=2.0).

use vstd::prelude::*;
use crate::dice::{DiceDistributionCache, lemma_sum_element_bound};

verus! {

/// Sentinel result meaning "cannot realistically kill".
pub const UNKILLABLE: i32 = -400;

/// Largest number of combat steps the model considers achievable.
pub const STEP_BUDGET: u32 = 300;

/// One weapon type's balance parameters.
#[derive(Clone, Copy, Debug, PartialEq, Eq, Structural)]
pub struct Weapon {
    /// Number of six-sided dice rolled per attack, in `1..=25`.
    pub dice_count: u32,
    /// Flat bonus added to the raw roll sum, in `1..=12`.
    pub modifier: u32,
    /// Fraction of enemy armor that mitigates the roll, in tenths: `1..=20`.
    pub armor_multiplier_tenths: u32,
    /// Scale from mitigated damage to health loss, in halves: `1..=4`.
    pub health_multiplier_halves: u32,
}

/// One enemy type's balance parameters.
#[derive(Clone, Copy, Debug, PartialEq, Eq, Structural)]
pub struct Enemy {
    /// Health points, in `1..=100`.
    pub health: u32,
    /// Armor points, in `0..=100`.
    pub armor: u32,
}

impl Weapon {
    /// Every field lies in its discrete domain.
    pub open spec fn wf(self) -> bool {
        &&& 1 <= self.dice_count <= 25
        &&& 1 <= self.modifier <= 12
        &&& 1 <= self.armor_multiplier_tenths <= 20
        &&& 1 <= self.health_multiplier_halves <= 4
    }
}

impl Enemy {
    /// Every field lies in its discrete domain.
    pub open spec fn wf(self) -> bool {
        &&& 1 <= self.health <= 100
        &&& self.armor <= 100
    }
}

/// How much armor subtracts from the modified roll: the enemy's armor
/// scaled by the weapon's armor multiplier, rounded to the nearest
/// integer.
pub open spec fn armor_cut(enemy: Enemy, weapon: Weapon) -> int {
    (enemy.armor * weapon.armor_multiplier_tenths + 5) / 10
}

/// Health points lost to one attack whose dice sum to `roll_sum`:
/// the modified roll, clamped at zero, loses the armor cut, is clamped
/// at zero again, and is scaled by the health multiplier (truncated).
pub open spec fn damage(enemy: Enemy, weapon: Weapon, roll_sum: int) -> int {
    let mitigated = if roll_sum + weapon.modifier >= 0 { roll_sum + weapon.modifier } else { 0 };
    let cut = armor_cut(enemy, weapon);
    let passed = if mitigated >= cut { mitigated - cut } else { 0 };
    passed * weapon.health_multiplier_halves / 2
}

impl Enemy {
    /// Damage this enemy takes from `weapon` when the dice sum to
    /// `roll_sum`.
    pub fn expected_damage(&self, weapon: &Weapon, roll_sum: u32) -> (r: u32)
        requires
            self.wf(),
            weapon.wf(),
            roll_sum <= 150,
        ensures
            r == damage(*self, *weapon, roll_sum as int),
    {
        proof {
            assert(self.armor * weapon.armor_multiplier_tenths <= 2000) by (nonlinear_arith)
                requires
                    self.armor <= 100,
                    weapon.armor_multiplier_tenths <= 20,
            ;
        }
        let mitigated: u32 = roll_sum + weapon.modifier;
        let cut: u32 = (self.armor * weapon.armor_multiplier_tenths + 5) / 10;
        let passed: u32 = if mitigated >= cut { mitigated - cut } else { 0 };
        proof {
            assert(passed * weapon.health_multiplier_halves <= 648) by (nonlinear_arith)
                requires
                    passed <= 162,
                    weapon.health_multiplier_halves <= 4,
            ;
        }
        passed * weapon.health_multiplier_halves / 2
    }
}

/// Damage lies in `0..=324` for any roll sum up to `150`.
pub proof fn lemma_damage_bounds(enemy: Enemy, weapon: Weapon, roll_sum: int)
    requires
        enemy.wf(),
        weapon.wf(),
        0 <= roll_sum <= 150,
    ensures
        0 <= damage(enemy, weapon, roll_sum) <= 324,
{
    let mitigated = roll_sum + weapon.modifier;
    let cut = armor_cut(enemy, weapon);
    let passed = if mitigated >= cut { mitigated - cut } else { 0 };
    assert(0 <= passed <= 162);
    assert(0 <= passed * weapon.health_multiplier_halves <= 648) by (nonlinear_arith)
        requires
            0 <= passed <= 162,
            1 <= weapon.health_multiplier_halves <= 4,
    ;
}

/// Law: damage is monotonically non-decreasing in the roll sum, for
/// fixed weapon and enemy parameters.
pub proof fn lemma_damage_monotonic_in_roll(enemy: Enemy, weapon: Weapon, r1: int, r2: int)
    requires
        enemy.wf(),
        weapon.wf(),
        r1 <= r2,
    ensures
        damage(enemy, weapon, r1) <= damage(enemy, weapon, r2),
{
    let cut = armor_cut(enemy, weapon);
    let m1 = if r1 + weapon.modifier >= 0 { r1 + weapon.modifier } else { 0 };
    let m2 = if r2 + weapon.modifier >= 0 { r2 + weapon.modifier } else { 0 };
    let p1 = if m1 >= cut { m1 - cut } else { 0 };
    let p2 = if m2 >= cut { m2 - cut } else { 0 };
    assert(p1 <= p2);
    assert(p1 * weapon.health_multiplier_halves <= p2 * weapon.health_multiplier_halves)
        by (nonlinear_arith)
        requires
            0 <= p1 <= p2,
            weapon.health_multiplier_halves >= 0,
    ;
    vstd::arithmetic::div_mod::lemma_div_is_ordered(
        p1 * weapon.health_multiplier_halves,
        p2 * weapon.health_multiplier_halves,
        2,
    );
}

/// Law: damage is monotonically non-increasing in the enemy's armor,
/// for fixed weapon parameters and roll sum.
pub proof fn lemma_damage_antitone_in_armor(e1: Enemy, e2: Enemy, weapon: Weapon, roll_sum: int)
    requires
        e1.wf(),
        e2.wf(),
        weapon.wf(),
        e1.armor <= e2.armor,
    ensures
        damage(e2, weapon, roll_sum) <= damage(e1, weapon, roll_sum),
{
    let t = weapon.armor_multiplier_tenths;
    assert(e1.armor * t <= e2.armor * t) by (nonlinear_arith)
        requires
            e1.armor <= e2.armor,
            t >= 0,
    ;
    vstd::arithmetic::div_mod::lemma_div_is_ordered(e1.armor * t + 5, e2.armor * t + 5, 10);
    let cut1 = armor_cut(e1, weapon);
    let cut2 = armor_cut(e2, weapon);
    assert(cut1 <= cut2);
    let mitigated = if roll_sum + weapon.modifier >= 0 { roll_sum + weapon.modifier } else { 0 };
    let p1 = if mitigated >= cut1 { mitigated - cut1 } else { 0 };
    let p2 = if mitigated >= cut2 { mitigated - cut2 } else { 0 };
    assert(p2 <= p1);
    assert(p2 * weapon.health_multiplier_halves <= p1 * weapon.health_multiplier_halves)
        by (nonlinear_arith)
        requires
            0 <= p2 <= p1,
            weapon.health_multiplier_halves >= 0,
    ;
    vstd::arithmetic::div_mod::lemma_div_is_ordered(
        p2 * weapon.health_multiplier_halves,
        p1 * weapon.health_multiplier_halves,
        2,
    );
}

/// Damage at each achievable roll sum weighted by that sum's sampled
/// count, accumulated over the first `k` entries of `counts` (entry
/// `i` of `counts` stands for the roll sum `dice_count + i`).
pub open spec fn weighted_damage_prefix(
    enemy: Enemy,
    weapon: Weapon,
    counts: Seq<u32>,
    k: int,
) -> int
    decreases k,
{
    if k <= 0 {
        0
    } else {
        weighted_damage_prefix(enemy, weapon, counts, k - 1) + damage(
            enemy,
            weapon,
            weapon.dice_count + k - 1,
        ) * counts[k - 1]
    }
}

/// The full weighted damage sum: the average damage per attack equals
/// this value divided by the distribution's draw total.
pub open spec fn weighted_damage_total(enemy: Enemy, weapon: Weapon, counts: Seq<u32>) -> int {
    weighted_damage_prefix(enemy, weapon, counts, counts.len() as int)
}

/// Expected number of combat steps to kill `enemy` with `weapon`,
/// given the weapon's dice distribution as counts over `total` draws.
///
/// With `ws` the weighted damage sum, the average damage per attack
/// is `ws / total`; the result is `UNKILLABLE` when that average is
/// below `0.1` (that is, `ws * 10 < total`) or when the step count
/// `health / average`, rounded to nearest, exceeds `STEP_BUDGET`.
/// Rounding to nearest is `(2 * health * total + ws) / (2 * ws)`.
pub open spec fn time_to_kill(enemy: Enemy, weapon: Weapon, counts: Seq<u32>, total: int) -> int {
    let ws = weighted_damage_total(enemy, weapon, counts);
    if ws * 10 < total {
        UNKILLABLE as int
    } else {
        let steps = (2 * enemy.health * total + ws) / (2 * ws);
        if steps > STEP_BUDGET {
            UNKILLABLE as int
        } else {
            steps
        }
    }
}

/// Law: the sentinel is returned exactly when the average damage is
/// below a tenth of a point, or when the rounded step count would
/// exceed the step budget.
pub proof fn lemma_time_to_kill_sentinel(enemy: Enemy, weapon: Weapon, counts: Seq<u32>, total: int)
    ensures
        weighted_damage_total(enemy, weapon, counts) * 10 < total ==> time_to_kill(
            enemy,
            weapon,
            counts,
            total,
        ) == UNKILLABLE as int,
        ({
            let ws = weighted_damage_total(enemy, weapon, counts);
            ws * 10 >= total && (2 * enemy.health * total + ws) / (2 * ws) > STEP_BUDGET
        }) ==> time_to_kill(enemy, weapon, counts, total) == UNKILLABLE as int,
{
}

/// A time-to-kill is either the sentinel or a step count within the
/// budget.
pub proof fn lemma_time_to_kill_range(enemy: Enemy, weapon: Weapon, counts: Seq<u32>, total: int)
    requires
        enemy.wf(),
        total >= 1,
    ensures
        UNKILLABLE <= time_to_kill(enemy, weapon, counts, total) <= STEP_BUDGET,
{
    let ws = weighted_damage_total(enemy, weapon, counts);
    if ws * 10 >= total {
        let h = enemy.health as int;
        assert((2 * h * total + ws) / (2 * ws) >= 0) by (nonlinear_arith)
            requires
                h >= 0,
                total >= 1,
                ws >= 1,
        ;
    }
}

/// The cached time-to-kill lies between the sentinel and the step
/// budget.
pub proof fn lemma_cached_time_to_kill_range(
    enemy: Enemy,
    weapon: Weapon,
    cache: DiceDistributionCache,
)
    requires
        enemy.wf(),
        weapon.wf(),
        cache.wf(),
        weapon.dice_count <= cache.distributions@.len(),
    ensures
        UNKILLABLE <= cached_time_to_kill(enemy, weapon, cache) <= STEP_BUDGET,
{
    let d = cache.distributions@[weapon.dice_count - 1];
    lemma_time_to_kill_range(enemy, weapon, d.counts@, d.total as int);
}

/// The time-to-kill of `enemy` against `weapon`, read through the
/// distribution cache at the weapon's dice count.
pub open spec fn cached_time_to_kill(
    enemy: Enemy,
    weapon: Weapon,
    cache: DiceDistributionCache,
) -> int {
    let d = cache.distributions@[weapon.dice_count - 1];
    time_to_kill(enemy, weapon, d.counts@, d.total as int)
}

impl Enemy {
    /// Expected number of combat steps this enemy survives against
    /// `weapon`, or `UNKILLABLE`; the sole bridge from a
    /// (weapon, enemy) pair to a time-to-kill estimate.
    pub fn expected_time_to_kill(
        &self,
        distribution_cache: &DiceDistributionCache,
        weapon: &Weapon,
    ) -> (r: i32)
        requires
            self.wf(),
            weapon.wf(),
            distribution_cache.wf(),
            weapon.dice_count <= distribution_cache.distributions@.len(),
        ensures
            r == cached_time_to_kill(*self, *weapon, *distribution_cache),
    {
        let distribution = distribution_cache.distribution_for(weapon.dice_count);
        let total: u32 = distribution.total;
        let len: usize = distribution.counts.len();
        let mut ws: u64 = 0;
        let mut i: usize = 0;
        while i < len
            invariant
                self.wf(),
                weapon.wf(),
                distribution.wf(),
                distribution.dice_count == weapon.dice_count,
                total == distribution.total,
                len == distribution.counts@.len(),
                0 <= i <= len,
                ws == weighted_damage_prefix(*self, *weapon, distribution.counts@, i as int),
                ws <= (i as int) * 324 * (total as int),
            decreases len - i,
        {
            let roll_sum: u32 = weapon.dice_count + i as u32;
            let d: u32 = self.expected_damage(weapon, roll_sum);
            let c: u32 = distribution.counts[i];
            proof {
                lemma_damage_bounds(*self, *weapon, roll_sum as int);
                lemma_sum_element_bound(distribution.counts@, i as int);
                assert((d as int) * (c as int) <= 324 * (total as int)) by (nonlinear_arith)
                    requires
                        0 <= d <= 324,
                        0 <= c <= total,
                ;
                assert((i as int) * 324 * (total as int) + 324 * (total as int) == ((i + 1) as int)
                    * 324 * (total as int)) by (nonlinear_arith);
                assert(((i + 1) as int) * 324 * (total as int) <= 151 * 324 * 0xffff_ffffu64)
                    by (nonlinear_arith)
                    requires
                        0 <= i + 1 <= 151,
                        0 <= total <= 0xffff_ffffu64,
                ;
            }
            ws = ws + (d as u64) * (c as u64);
            i = i + 1;
        }
        proof {
            assert(ws <= 151 * 324 * 0xffff_ffffu64) by (nonlinear_arith)
                requires
                    ws <= (len as int) * 324 * (total as int),
                    0 <= len <= 151,
                    0 <= total <= 0xffff_ffffu64,
            ;
        }
        if ws * 10 < total as u64 {
            return UNKILLABLE;
        }
        proof {
            assert(2 * (self.health as int) * (total as int) <= 200 * 0xffff_ffffu64)
                by (nonlinear_arith)
                requires
                    0 <= self.health <= 100,
                    0 <= total <= 0xffff_ffffu64,
            ;
        }
        let steps: u64 = (2 * (self.health as u64) * (total as u64) + ws) / (2 * ws);
        if steps > STEP_BUDGET as u64 {
            UNKILLABLE
        } else {
            steps as i32
        }
    }
}

} // verus!
