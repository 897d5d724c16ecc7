//! Fitness evaluation: a sample's total squared error against the
//! designer-authored target matrix, and the score derived from it.
//!
//! The score is the inverse of the error in fixed point: `MAX_SCORE`
//! divided by the error, with a perfect match (zero error) clamped to
//! `MAX_SCORE` itself. Higher is better.

use vstd::prelude::*;
use crate::combat::{cached_time_to_kill, lemma_cached_time_to_kill_range, Enemy, Weapon};
use crate::dice::DiceDistributionCache;
use crate::sample::Sample;

verus! {

/// The score of a perfect match, and the fixed-point scale of every
/// score: a sample with squared error `e > 0` scores `MAX_SCORE / e`.
pub const MAX_SCORE: u64 = 1_000_000_000_000;

/// The designer-authored target: for every (weapon index, enemy
/// index) pair, the desired time-to-kill, with `UNKILLABLE` usable as
/// a normal value.
#[derive(Debug)]
pub struct TargetMatrix {
    /// Number of weapon types in the catalog.
    pub weapon_count: usize,
    /// Number of enemy types in the catalog.
    pub enemy_count: usize,
    /// Row-major entries: weapon `w`, enemy `e` at `w * enemy_count + e`.
    pub entries: Vec<i32>,
}

impl TargetMatrix {
    /// The entries cover the full cross-product of the catalogs.
    pub open spec fn wf(self) -> bool {
        self.entries@.len() == self.weapon_count * self.enemy_count
    }

    /// The target time-to-kill for weapon `w` against enemy `e`.
    pub open spec fn at(self, w: int, e: int) -> int {
        self.entries@[w * self.enemy_count + e] as int
    }

    /// Builds a target matrix from row-major entries.
    pub fn new(weapon_count: usize, enemy_count: usize, entries: Vec<i32>) -> (r: TargetMatrix)
        requires
            entries@.len() == weapon_count * enemy_count,
        ensures
            r.wf(),
            r.weapon_count == weapon_count,
            r.enemy_count == enemy_count,
            r.entries@ == entries@,
    {
        TargetMatrix { weapon_count, enemy_count, entries }
    }

    /// Reads the target time-to-kill for weapon `w` against enemy `e`.
    pub fn get(&self, w: usize, e: usize) -> (r: i32)
        requires
            self.wf(),
            w < self.weapon_count,
            e < self.enemy_count,
        ensures
            r == self.at(w as int, e as int),
    {
        proof {
            vstd::std_specs::vec::axiom_spec_len(&self.entries);
            assert(w * self.enemy_count + e < self.weapon_count * self.enemy_count)
                by (nonlinear_arith)
                requires
                    w < self.weapon_count,
                    e < self.enemy_count,
            ;
        }
        self.entries[w * self.enemy_count + e]
    }
}

/// The squared difference between the derived and the target
/// time-to-kill for one (weapon, enemy) pair.
pub open spec fn pair_sq_error(
    weapons: Seq<Weapon>,
    enemies: Seq<Enemy>,
    target: TargetMatrix,
    cache: DiceDistributionCache,
    w: int,
    e: int,
) -> int {
    let diff = cached_time_to_kill(enemies[e], weapons[w], cache) - target.at(w, e);
    diff * diff
}

/// Squared error of weapon `w` against the first `k` enemies.
pub open spec fn row_error_prefix(
    weapons: Seq<Weapon>,
    enemies: Seq<Enemy>,
    target: TargetMatrix,
    cache: DiceDistributionCache,
    w: int,
    k: int,
) -> int
    decreases k,
{
    if k <= 0 {
        0
    } else {
        row_error_prefix(weapons, enemies, target, cache, w, k - 1) + pair_sq_error(
            weapons,
            enemies,
            target,
            cache,
            w,
            k - 1,
        )
    }
}

/// Squared error of the first `k` weapons against all enemies.
pub open spec fn error_prefix(
    weapons: Seq<Weapon>,
    enemies: Seq<Enemy>,
    target: TargetMatrix,
    cache: DiceDistributionCache,
    k: int,
) -> int
    decreases k,
{
    if k <= 0 {
        0
    } else {
        error_prefix(weapons, enemies, target, cache, k - 1) + row_error_prefix(
            weapons,
            enemies,
            target,
            cache,
            k - 1,
            enemies.len() as int,
        )
    }
}

/// Total squared error of a candidate parameter assignment over the
/// full cross-product of its weapon and enemy sequences.
pub open spec fn total_sq_error(
    weapons: Seq<Weapon>,
    enemies: Seq<Enemy>,
    target: TargetMatrix,
    cache: DiceDistributionCache,
) -> int {
    error_prefix(weapons, enemies, target, cache, weapons.len() as int)
}

/// A sample's total squared error against the target.
pub open spec fn sample_error(
    sample: Sample,
    target: TargetMatrix,
    cache: DiceDistributionCache,
) -> int {
    total_sq_error(sample.weapons@, sample.enemies@, target, cache)
}

/// The fitness score derived from a squared error: inverse error in
/// fixed point, with zero error clamped to the maximal score.
pub open spec fn score_of_error(err: int) -> int {
    if err <= 0 {
        MAX_SCORE as int
    } else {
        MAX_SCORE as int / err
    }
}

/// The score a sample is owed against a target and distribution
/// cache.
pub open spec fn sample_score(
    sample: Sample,
    target: TargetMatrix,
    cache: DiceDistributionCache,
) -> int {
    score_of_error(sample_error(sample, target, cache))
}

/// Computes the fitness score for a squared error.
pub fn score_for_error(err: u128) -> (r: u64)
    ensures
        r == score_of_error(err as int),
        r <= MAX_SCORE,
{
    if err == 0 {
        MAX_SCORE
    } else {
        let q: u128 = (MAX_SCORE as u128) / err;
        proof {
            assert(q <= MAX_SCORE) by (nonlinear_arith)
                requires
                    q == (MAX_SCORE as int) / (err as int),
                    err >= 1,
            ;
        }
        q as u64
    }
}

impl Sample {
    /// The total squared error of this sample's derived time-to-kill
    /// matrix against the target, over every (weapon, enemy) pair.
    pub fn total_squared_error(
        &self,
        target: &TargetMatrix,
        cache: &DiceDistributionCache,
    ) -> (r: u128)
        requires
            self.wf(),
            target.wf(),
            cache.wf(),
            cache.distributions@.len() >= 25,
            self.weapons@.len() == target.weapon_count,
            self.enemies@.len() == target.enemy_count,
        ensures
            r == sample_error(*self, *target, *cache),
    {
        let wc: usize = self.weapons.len();
        let ec: usize = self.enemies.len();
        let ghost q: int = (2147484048 * 2147484048) as int;
        let mut err: u128 = 0;
        let mut w: usize = 0;
        while w < wc
            invariant
                self.wf(),
                target.wf(),
                cache.wf(),
                cache.distributions@.len() >= 25,
                wc == self.weapons@.len(),
                ec == self.enemies@.len(),
                wc == target.weapon_count,
                ec == target.enemy_count,
                q == (2147484048 * 2147484048) as int,
                w <= wc,
                err == error_prefix(self.weapons@, self.enemies@, *target, *cache, w as int),
                err <= (w as int) * (ec as int) * q,
            decreases wc - w,
        {
            let mut e: usize = 0;
            while e < ec
                invariant
                    self.wf(),
                    target.wf(),
                    cache.wf(),
                    cache.distributions@.len() >= 25,
                    wc == self.weapons@.len(),
                    ec == self.enemies@.len(),
                    wc == target.weapon_count,
                    ec == target.enemy_count,
                    q == (2147484048 * 2147484048) as int,
                    w < wc,
                    e <= ec,
                    err == error_prefix(self.weapons@, self.enemies@, *target, *cache, w as int)
                        + row_error_prefix(
                        self.weapons@,
                        self.enemies@,
                        *target,
                        *cache,
                        w as int,
                        e as int,
                    ),
                    err <= ((w as int) * (ec as int) + (e as int)) * q,
                decreases ec - e,
            {
                let ttk: i32 = self.enemies[e].expected_time_to_kill(cache, &self.weapons[w]);
                let tgt: i32 = target.get(w, e);
                let diff: i64 = (ttk as i64) - (tgt as i64);
                proof {
                    lemma_cached_time_to_kill_range(
                        self.enemies@[e as int],
                        self.weapons@[w as int],
                        *cache,
                    );
                    assert(0 <= diff * diff <= q) by (nonlinear_arith)
                        requires
                            -2147484048 <= diff <= 2147484048,
                            q == (2147484048 * 2147484048) as int,
                    ;
                }
                let sq: i64 = diff * diff;
                proof {
                    vstd::std_specs::vec::axiom_spec_len(&target.entries);
                    let k: int = (w as int) * (ec as int) + (e as int);
                    assert(k + 1 <= (wc as int) * (ec as int)) by (nonlinear_arith)
                        requires
                            k == (w as int) * (ec as int) + (e as int),
                            w < wc,
                            e < ec,
                            0 <= w,
                            0 <= e,
                            0 <= ec,
                    ;
                    assert(err + sq <= (k + 1) * q) by (nonlinear_arith)
                        requires
                            err <= k * q,
                            0 <= sq <= q,
                            0 <= k,
                            0 <= q,
                    ;
                    assert((k + 1) * q <= 0xffff_ffff_ffff_ffff * q) by (nonlinear_arith)
                        requires
                            0 <= k + 1 <= 0xffff_ffff_ffff_ffff,
                            0 <= q,
                    ;
                }
                err = err + (sq as u128);
                e = e + 1;
            }
            proof {
                assert(((w as int) * (ec as int) + (ec as int)) * q == (((w + 1) as int) * (
                ec as int)) * q) by (nonlinear_arith);
            }
            w = w + 1;
        }
        err
    }

    /// Recomputes this sample's score from scratch: the inverse of
    /// its total squared error against the target, in fixed point.
    /// The previous score has no influence on the new one.
    pub fn evaluate(&mut self, target: &TargetMatrix, cache: &DiceDistributionCache)
        requires
            old(self).wf(),
            target.wf(),
            cache.wf(),
            cache.distributions@.len() >= 25,
            old(self).weapons@.len() == target.weapon_count,
            old(self).enemies@.len() == target.enemy_count,
        ensures
            final(self).weapons@ == old(self).weapons@,
            final(self).enemies@ == old(self).enemies@,
            final(self).score == sample_score(*old(self), *target, *cache),
    {
        let err = self.total_squared_error(target, cache);
        self.score = score_for_error(err);
    }
}

/// The error of one row is zero when every pair of that row matches.
proof fn lemma_row_error_zero(
    weapons: Seq<Weapon>,
    enemies: Seq<Enemy>,
    target: TargetMatrix,
    cache: DiceDistributionCache,
    w: int,
    k: int,
)
    requires
        0 <= k <= enemies.len(),
        forall|e: int|
            0 <= e < enemies.len() ==> cached_time_to_kill(
                #[trigger] enemies[e],
                weapons[w],
                cache,
            ) == target.at(w, e),
    ensures
        row_error_prefix(weapons, enemies, target, cache, w, k) == 0,
    decreases k,
{
    if k > 0 {
        lemma_row_error_zero(weapons, enemies, target, cache, w, k - 1);
        assert(cached_time_to_kill(enemies[k - 1], weapons[w], cache) == target.at(w, k - 1));
    }
}

/// The total error is zero when every pair matches.
proof fn lemma_error_prefix_zero(
    weapons: Seq<Weapon>,
    enemies: Seq<Enemy>,
    target: TargetMatrix,
    cache: DiceDistributionCache,
    k: int,
)
    requires
        0 <= k <= weapons.len(),
        forall|w: int, e: int|
            0 <= w < weapons.len() && 0 <= e < enemies.len() ==> cached_time_to_kill(
                #[trigger] enemies[e],
                #[trigger] weapons[w],
                cache,
            ) == target.at(w, e),
    ensures
        error_prefix(weapons, enemies, target, cache, k) == 0,
    decreases k,
{
    if k > 0 {
        lemma_error_prefix_zero(weapons, enemies, target, cache, k - 1);
        lemma_row_error_zero(weapons, enemies, target, cache, k - 1, enemies.len() as int);
    }
}

/// Law: a sample whose derived time-to-kill matrix matches the
/// target exactly has zero total squared error, and so the
/// theoretical maximum fitness score.
pub proof fn lemma_perfect_match_max_score(
    sample: Sample,
    target: TargetMatrix,
    cache: DiceDistributionCache,
)
    requires
        forall|w: int, e: int|
            0 <= w < sample.weapons@.len() && 0 <= e < sample.enemies@.len()
                ==> cached_time_to_kill(
                #[trigger] sample.enemies@[e],
                #[trigger] sample.weapons@[w],
                cache,
            ) == target.at(w, e),
    ensures
        sample_error(sample, target, cache) == 0,
        sample_score(sample, target, cache) == MAX_SCORE,
{
    lemma_error_prefix_zero(
        sample.weapons@,
        sample.enemies@,
        target,
        cache,
        sample.weapons@.len() as int,
    );
}

} // verus!
