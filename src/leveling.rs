//! Levels earned from chat points.
//!
//! Reaching level `n` costs `10 * 5^n` points: level 0 costs 10, level 1
//! costs 50, level 2 costs 250, and so on.

use vstd::prelude::*;

verus! {

/// Points needed to reach level 0.
pub const BASE_LEVEL_COST: u64 = 10;

/// Factor by which the cost grows from one level to the next.
pub const LEVEL_GROWTH: u64 = 5;

/// The cost of `level`, as an unbounded number.
pub open spec fn level_cost(level: nat) -> nat
    decreases level,
{
    if level == 0 {
        BASE_LEVEL_COST as nat
    } else {
        LEVEL_GROWTH as nat * level_cost((level - 1) as nat)
    }
}

/// The cost of `level` as a `u64`, saturating at `u64::MAX`.
pub open spec fn saturated_level_cost(level: nat) -> u64 {
    if level_cost(level) <= u64::MAX {
        level_cost(level) as u64
    } else {
        u64::MAX
    }
}

/// The level held with `points`: the highest level whose cost is covered,
/// and level 0 when not even that one is.
pub open spec fn is_level_of(points: nat, level: nat) -> bool {
    &&& (level == 0 || level_cost(level) <= points)
    &&& points < level_cost(level + 1)
}

/// Costs grow strictly with the level.
pub proof fn lemma_level_cost_strictly_increasing(a: nat, b: nat)
    requires
        a < b,
    ensures
        level_cost(a) < level_cost(b),
    decreases b - a,
{
    reveal_with_fuel(level_cost, 2);
    if b == a + 1 {
        assert(level_cost(a) > 0) by {
            lemma_level_cost_positive(a);
        }
    } else {
        lemma_level_cost_strictly_increasing(a, (b - 1) as nat);
        lemma_level_cost_strictly_increasing((b - 1) as nat, b);
    }
}

/// Every level costs something.
pub proof fn lemma_level_cost_positive(level: nat)
    ensures
        level_cost(level) >= BASE_LEVEL_COST,
    decreases level,
{
    if level > 0 {
        lemma_level_cost_positive((level - 1) as nat);
    }
}

/// At most one level fits a number of points.
pub proof fn lemma_level_unique(points: nat, a: nat, b: nat)
    requires
        is_level_of(points, a),
        is_level_of(points, b),
    ensures
        a == b,
{
    if a < b {
        if a + 1 < b {
            lemma_level_cost_strictly_increasing(a + 1, b);
        }
    } else if b < a {
        if b + 1 < a {
            lemma_level_cost_strictly_increasing(b + 1, a);
        }
    }
}

/// Points needed to reach `level`; `u64::MAX` where the cost does not fit.
pub fn get_level_cost(level: u32) -> (cost: u64)
    ensures
        cost == saturated_level_cost(level as nat),
{
    let mut cost: u64 = BASE_LEVEL_COST;
    let mut i: u32 = 0;
    while i < level
        invariant
            i <= level,
            cost as nat == level_cost(i as nat),
        decreases level - i,
    {
        if cost > u64::MAX / LEVEL_GROWTH {
            proof {
                lemma_level_cost_strictly_increasing(i as nat, level as nat);
                if i + 1 < level {
                    lemma_level_cost_strictly_increasing((i + 1) as nat, level as nat);
                }
                assert(level_cost((i + 1) as nat) == 5 * level_cost(i as nat));
            }
            return u64::MAX;
        }
        cost = cost * LEVEL_GROWTH;
        i = i + 1;
    }
    cost
}

/// The level reached with `points`: the highest level whose cost is at most
/// `points`, or level 0 below the cost of level 0.
pub fn get_level_from_points(points: u64) -> (level: u32)
    ensures
        is_level_of(points as nat, level as nat),
        level <= 27,
{
    let mut level: u32 = 0;
    let mut next: u128 = (BASE_LEVEL_COST * LEVEL_GROWTH) as u128;
    proof {
        reveal_with_fuel(level_cost, 2);
    }
    while next <= points as u128
        invariant
            level == 0 || level_cost(level as nat) <= points,
            next as nat == level_cost(level as nat + 1),
            level <= 27,
        decreases points as int - level_cost(level as nat),
    {
        proof {
            if level >= 27 {
                reveal_with_fuel(level_cost, 29);
                assert(level_cost(28) == 372529029846191406250nat);
                if level + 1 < 28 {
                    lemma_level_cost_strictly_increasing(level as nat + 1, 28);
                } else if level + 1 > 28 {
                    lemma_level_cost_strictly_increasing(28, level as nat + 1);
                }
            }
            lemma_level_cost_strictly_increasing(level as nat, level as nat + 1);
        }
        assert(next * 5 <= 5 * (u64::MAX as u128));
        level = level + 1;
        next = next * (LEVEL_GROWTH as u128);
    }
    level
}

/// A member's level with `points`, and the points still missing before the
/// next level, whose cost saturates at `u64::MAX`.
pub fn level(points: u64) -> (r: (u32, u64))
    ensures
        is_level_of(points as nat, r.0 as nat),
        r.1 == saturated_level_cost(r.0 as nat + 1) - points,
{
    let current = get_level_from_points(points);
    let cost = get_level_cost(current + 1);
    (current, cost - points)
}

} // verus!
