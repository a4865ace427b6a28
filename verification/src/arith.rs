//! Fixed-point proportional-share arithmetic.
//!
//! An account's share of an era's reward budget is the ratio of its pending
//! volume to the era's total volume, held as a whole number of parts per
//! quintillion and rounded down; the award is that share of the budget,
//! rounded down again.  Rounding down is deliberate: split however the total
//! may be, the awards of one era can never sum to more than the budget.

use vstd::prelude::*;

verus! {

use vstd::arithmetic::div_mod::lemma_div_is_ordered;
use vstd::arithmetic::div_mod::lemma_div_multiples_vanish;
use vstd::arithmetic::div_mod::lemma_div_pos_is_pos;
use vstd::arithmetic::div_mod::lemma_fundamental_div_mod;
use vstd::arithmetic::mul::lemma_mul_inequality;
use vstd::arithmetic::mul::lemma_mul_is_distributive_add;
use vstd::arithmetic::mul::lemma_mul_nonnegative;

/// Scale of the fixed-point ratio type: shares are whole numbers of parts per
/// quintillion.
pub const RATIO_SCALE: u64 = 1_000_000_000_000_000_000;

/// The ratio `p / q` as parts per quintillion, rounded down.  A malformed
/// ratio (zero denominator, or a numerator above the denominator) saturates
/// to one, as the underlying fixed-point type does.
pub open spec fn ratio_parts_spec(p: int, q: int) -> int {
    if 0 < q && p <= q {
        (p * RATIO_SCALE) / q
    } else {
        RATIO_SCALE as int
    }
}

/// The portion of `x` that a share of `parts` parts per quintillion earns,
/// rounded down.
pub open spec fn scaled_share_spec(parts: int, x: int) -> int {
    (parts * x) / (RATIO_SCALE as int)
}

/// The reward that a pending volume `pending` earns out of `budget` when its
/// era closed with total volume `total`.
pub open spec fn award_spec(pending: int, total: int, budget: int) -> int {
    scaled_share_spec(ratio_parts_spec(pending, total), budget)
}

/// Relies on `sp_arithmetic::Perquintill::from_rational`, which rounds the
/// ratio down to a whole number of parts per quintillion and yields one
/// whenever the denominator is zero or smaller than the numerator, and on
/// `deconstruct`, which returns those parts.
#[verifier::external_body]
fn rational_parts(p: u128, q: u128) -> (r: u64)
    ensures
        r == ratio_parts_spec(p as int, q as int),
{
    sp_arithmetic::Perquintill::from_rational(p, q).deconstruct()
}

/// Relies on `sp_arithmetic::Perquintill::from_parts` and `mul_floor`: for a
/// ratio of at most one, multiplying computes `parts * x / RATIO_SCALE`
/// rounded down, without overflowing.
#[verifier::external_body]
fn scaled_mul_floor(parts: u64, x: u128) -> (r: u128)
    requires
        parts <= RATIO_SCALE,
    ensures
        r == scaled_share_spec(parts as int, x as int),
{
    sp_arithmetic::Perquintill::from_parts(parts).mul_floor(x)
}

/// The ratio of `p` against a positive denominator lies between zero and one.
pub proof fn lemma_ratio_parts_bounds(p: int, q: int)
    requires
        0 <= p,
        0 < q,
    ensures
        0 <= ratio_parts_spec(p, q) <= RATIO_SCALE,
{
    let s = RATIO_SCALE as int;
    if p <= q {
        lemma_mul_nonnegative(p, s);
        lemma_div_pos_is_pos(p * s, q);
        lemma_mul_inequality(p, q, s);
        lemma_div_is_ordered(p * s, q * s, q);
        lemma_div_multiples_vanish(s, q);
    }
}

/// The award computed for any one share never exceeds the era budget.
pub proof fn lemma_award_le_budget(pending: int, total: int, budget: int)
    requires
        0 <= pending,
        0 < total,
        0 <= budget,
    ensures
        0 <= award_spec(pending, total, budget) <= budget,
{
    let s = RATIO_SCALE as int;
    lemma_ratio_parts_bounds(pending, total);
    let parts = ratio_parts_spec(pending, total);
    lemma_mul_nonnegative(parts, budget);
    lemma_div_pos_is_pos(parts * budget, s);
    lemma_mul_inequality(parts, s, budget);
    lemma_div_is_ordered(parts * budget, s * budget, s);
    lemma_div_multiples_vanish(budget, s);
}

/// Computes the reward that `pending` earns out of `budget` for an era that
/// closed with total volume `total`.
pub fn compute_award(pending: u128, total: u128, budget: u128) -> (r: u128)
    requires
        0 < total,
    ensures
        r == award_spec(pending as int, total as int, budget as int),
        r <= budget,
{
    let parts: u64 = rational_parts(pending, total);
    proof {
        lemma_ratio_parts_bounds(pending as int, total as int);
        lemma_award_le_budget(pending as int, total as int, budget as int);
    }
    scaled_mul_floor(parts, budget)
}

/// The sum of a sequence of volumes.
pub open spec fn sum_of(s: Seq<int>) -> int
    decreases s.len(),
{
    if s.len() == 0 {
        0
    } else {
        s[0] + sum_of(s.skip(1))
    }
}

/// The sum of the fixed-point shares that a sequence of pending volumes holds
/// of an era that closed with total volume `total`.
pub open spec fn sum_of_parts(ps: Seq<int>, total: int) -> int
    decreases ps.len(),
{
    if ps.len() == 0 {
        0
    } else {
        ratio_parts_spec(ps[0], total) + sum_of_parts(ps.skip(1), total)
    }
}

/// The sum of the awards that a sequence of pending volumes earns out of
/// `budget` for an era that closed with total volume `total`.
pub open spec fn sum_of_awards(ps: Seq<int>, total: int, budget: int) -> int
    decreases ps.len(),
{
    if ps.len() == 0 {
        0
    } else {
        award_spec(ps[0], total, budget) + sum_of_awards(ps.skip(1), total, budget)
    }
}

/// Rounding down loses across a split: the quotients of two nonnegative
/// numerators never sum to more than the quotient of their sum.
proof fn lemma_div_superadditive(a: int, b: int, d: int)
    requires
        0 <= a,
        0 <= b,
        0 < d,
    ensures
        a / d + b / d <= (a + b) / d,
{
    lemma_fundamental_div_mod(a, d);
    lemma_fundamental_div_mod(b, d);
    assert(0 <= a % d && 0 <= b % d) by (nonlinear_arith)
        requires 0 <= a && 0 <= b && 0 < d;
    lemma_div_pos_is_pos(a, d);
    lemma_div_pos_is_pos(b, d);
    lemma_mul_is_distributive_add(d, a / d, b / d);
    lemma_div_multiples_vanish(a / d + b / d, d);
    lemma_div_is_ordered(d * (a / d + b / d), a + b, d);
}

/// A sequence of nonnegative volumes has a nonnegative sum.
proof fn lemma_sum_nonneg(ps: Seq<int>)
    requires
        forall|i: int| 0 <= i < ps.len() ==> 0 <= #[trigger] ps[i],
    ensures
        0 <= sum_of(ps),
    decreases ps.len(),
{
    if ps.len() > 0 {
        assert(forall|i: int| 0 <= i < ps.skip(1).len() ==> 0 <= #[trigger] ps.skip(1)[i]);
        lemma_sum_nonneg(ps.skip(1));
    }
}

/// In a sequence of nonnegative volumes, no element exceeds the sum.
proof fn lemma_elem_le_sum(ps: Seq<int>, k: int)
    requires
        forall|i: int| 0 <= i < ps.len() ==> 0 <= #[trigger] ps[i],
        0 <= k < ps.len(),
    ensures
        ps[k] <= sum_of(ps),
    decreases ps.len(),
{
    assert(forall|i: int| 0 <= i < ps.skip(1).len() ==> 0 <= #[trigger] ps.skip(1)[i]);
    lemma_sum_nonneg(ps.skip(1));
    if k > 0 {
        lemma_elem_le_sum(ps.skip(1), k - 1);
    }
}

/// The shares of volumes that sum to at most the era total sum to at most one
/// whole ratio's worth of parts.
proof fn lemma_sum_parts_bound(ps: Seq<int>, total: int)
    requires
        0 < total,
        forall|i: int| 0 <= i < ps.len() ==> 0 <= #[trigger] ps[i] && ps[i] <= total,
    ensures
        0 <= sum_of_parts(ps, total),
        sum_of_parts(ps, total) <= (sum_of(ps) * RATIO_SCALE) / total,
    decreases ps.len(),
{
    let s = RATIO_SCALE as int;
    if ps.len() == 0 {
        lemma_div_pos_is_pos(0, total);
    } else {
        let p0 = ps[0];
        let tail = ps.skip(1);
        assert(forall|i: int| 0 <= i < tail.len() ==> 0 <= #[trigger] tail[i] && tail[i] <= total);
        lemma_sum_parts_bound(tail, total);
        lemma_ratio_parts_bounds(p0, total);
        lemma_sum_nonneg(tail);
        lemma_mul_nonnegative(p0, s);
        lemma_mul_nonnegative(sum_of(tail), s);
        lemma_div_superadditive(p0 * s, sum_of(tail) * s, total);
        lemma_mul_is_distributive_add(s, p0, sum_of(tail));
        assert(s * (p0 + sum_of(tail)) == (p0 + sum_of(tail)) * s) by (nonlinear_arith);
        assert(s * p0 == p0 * s && s * sum_of(tail) == sum_of(tail) * s) by (nonlinear_arith);
        assert(p0 * s + sum_of(tail) * s == (p0 + sum_of(tail)) * s);
        assert(sum_of_parts(ps, total) <= ((p0 + sum_of(tail)) * s) / total);
    }
}

/// The awards of volumes whose shares sum to at most the whole sum to at most
/// a share-sum's worth of the budget.
proof fn lemma_sum_awards_bound(ps: Seq<int>, total: int, budget: int)
    requires
        0 < total,
        0 <= budget,
        forall|i: int| 0 <= i < ps.len() ==> 0 <= #[trigger] ps[i] && ps[i] <= total,
    ensures
        0 <= sum_of_awards(ps, total, budget),
        sum_of_awards(ps, total, budget) <= (sum_of_parts(ps, total) * budget) / (RATIO_SCALE as int),
    decreases ps.len(),
{
    let s = RATIO_SCALE as int;
    if ps.len() == 0 {
        lemma_div_pos_is_pos(0, s);
    } else {
        let p0 = ps[0];
        let tail = ps.skip(1);
        assert(forall|i: int| 0 <= i < tail.len() ==> 0 <= #[trigger] tail[i] && tail[i] <= total);
        lemma_sum_awards_bound(tail, total, budget);
        lemma_award_le_budget(p0, total, budget);
        lemma_ratio_parts_bounds(p0, total);
        let parts0 = ratio_parts_spec(p0, total);
        lemma_sum_parts_bound(tail, total);
        lemma_mul_nonnegative(parts0, budget);
        lemma_mul_nonnegative(sum_of_parts(tail, total), budget);
        lemma_div_superadditive(parts0 * budget, sum_of_parts(tail, total) * budget, s);
        lemma_mul_is_distributive_add(budget, parts0, sum_of_parts(tail, total));
        assert(budget * (parts0 + sum_of_parts(tail, total)) == (parts0 + sum_of_parts(tail, total))
            * budget) by (nonlinear_arith);
        assert(budget * parts0 == parts0 * budget && budget * sum_of_parts(tail, total)
            == sum_of_parts(tail, total) * budget) by (nonlinear_arith);
        assert(sum_of_awards(ps, total, budget) <= ((parts0 + sum_of_parts(tail, total)) * budget)
            / s);
    }
}

/// Conservation of reward within an era: however an era's total volume was
/// split among accounts, the per-account awards, each rounded down, sum to at
/// most the era's reward budget.  Rounding only ever loses reward, it never
/// creates any.
pub proof fn lemma_era_conservation(ps: Seq<int>, total: int, budget: int)
    requires
        0 < total,
        0 <= budget,
        forall|i: int| 0 <= i < ps.len() ==> 0 <= #[trigger] ps[i],
        sum_of(ps) <= total,
    ensures
        0 <= sum_of_awards(ps, total, budget) <= budget,
{
    let s = RATIO_SCALE as int;
    assert forall|k: int| 0 <= k < ps.len() implies ps[k] <= total by {
        lemma_elem_le_sum(ps, k);
    }
    lemma_sum_parts_bound(ps, total);
    lemma_sum_awards_bound(ps, total, budget);
    lemma_sum_nonneg(ps);
    // the parts-sum is at most one whole ratio
    lemma_mul_inequality(sum_of(ps), total, s);
    lemma_mul_nonnegative(sum_of(ps), s);
    lemma_div_is_ordered(sum_of(ps) * s, total * s, total);
    lemma_div_multiples_vanish(s, total);
    // hence the award-sum is at most the budget
    lemma_mul_inequality(sum_of_parts(ps, total), s, budget);
    lemma_div_is_ordered(sum_of_parts(ps, total) * budget, s * budget, s);
    lemma_div_multiples_vanish(budget, s);
}

} // verus!

