//! What holds of every curve that the engine can return.

use crate::snowflake::model::derives;
use crate::snowflake::model::is_closed;
use crate::snowflake::model::is_deterministic;
use crate::snowflake::model::point_count;
use crate::snowflake::model::refines;
use crate::snowflake::model::refines_at;
use crate::snowflake::model::seed_of;
use vstd::arithmetic::power::pow;
use vstd::prelude::*;

verus! {

/// A round keeps a closed curve closed, and keeps its first point.
pub proof fn lemma_closed_after_round<P, F: Fn(P, P) -> (P, P, P)>(
    divide: F,
    prev: Seq<P>,
    next: Seq<P>,
)
    requires
        refines(divide, prev, next),
        is_closed(prev),
    ensures
        is_closed(next),
        next.first() == prev.first(),
{
    if prev.len() > 1 {
        assert(refines_at(divide, prev, next, 0));
    }
}

/// Closure: every curve derived from a closed seed, after any number of
/// rounds, ends at the point where it starts, which is the seed's own first
/// point.
pub proof fn lemma_derived_curve_is_closed<P, F: Fn(P, P) -> (P, P, P)>(
    divide: F,
    seed: Seq<P>,
    rounds: nat,
    curve: Seq<P>,
)
    requires
        is_closed(seed),
        derives(divide, seed, rounds, curve),
    ensures
        is_closed(curve),
        curve.first() == seed.first(),
        curve.last() == seed.first(),
    decreases rounds,
{
    if rounds > 0 {
        let mid = choose|mid: Seq<P>|
            derives(divide, seed, (rounds - 1) as nat, mid) && #[trigger] refines(
                divide,
                mid,
                curve,
            );
        lemma_derived_curve_is_closed(divide, seed, (rounds - 1) as nat, mid);
        lemma_closed_after_round(divide, mid, curve);
    }
}

/// Growth: a round turns a curve of `n > 0` points into one of
/// `4 * (n - 1) + 1`.
pub proof fn lemma_growth<P, F: Fn(P, P) -> (P, P, P)>(divide: F, prev: Seq<P>, next: Seq<P>)
    requires
        refines(divide, prev, next),
        prev.len() > 0,
    ensures
        next.len() == 4 * (prev.len() - 1) + 1,
{
}

/// One more round on a curve derived in `rounds` rounds gives a curve derived
/// in `rounds + 1`, and the count of points goes with it.
pub proof fn lemma_count_after_round<P, F: Fn(P, P) -> (P, P, P)>(
    divide: F,
    seed: Seq<P>,
    rounds: nat,
    curve: Seq<P>,
    next: Seq<P>,
)
    requires
        derives(divide, seed, rounds, curve),
        refines(divide, curve, next),
    ensures
        derives(divide, seed, rounds + 1, next),
        curve.len() == point_count(rounds) ==> next.len() == point_count(rounds + 1),
{
    assert(derives(divide, seed, ((rounds + 1) - 1) as nat, curve));
    if curve.len() == point_count(rounds) {
        lemma_point_count_positive(rounds);
    }
}

/// The count of points is never below the seed's four.
pub proof fn lemma_point_count_positive(rounds: nat)
    ensures
        point_count(rounds) >= 4,
    decreases rounds,
{
    if rounds > 0 {
        lemma_point_count_positive((rounds - 1) as nat);
    }
}

/// In closed form, `rounds` rounds on the seed give three times four to the
/// power of `rounds` points, and one.
pub proof fn lemma_point_count_closed_form(rounds: nat)
    ensures
        point_count(rounds) == 3 * pow(4, rounds) + 1,
    decreases rounds,
{
    reveal(pow);
    if rounds > 0 {
        lemma_point_count_closed_form((rounds - 1) as nat);
    }
}

/// Growth from the seed: every curve derived from a three-vertex seed in
/// `rounds` rounds has `point_count(rounds)` points.
pub proof fn lemma_derived_curve_count<P, F: Fn(P, P) -> (P, P, P)>(
    divide: F,
    a: P,
    b: P,
    c: P,
    rounds: nat,
    curve: Seq<P>,
)
    requires
        derives(divide, seed_of(a, b, c), rounds, curve),
    ensures
        curve.len() == point_count(rounds),
    decreases rounds,
{
    if rounds > 0 {
        let mid = choose|mid: Seq<P>|
            derives(divide, seed_of(a, b, c), (rounds - 1) as nat, mid) && #[trigger] refines(
                divide,
                mid,
                curve,
            );
        lemma_derived_curve_count(divide, a, b, c, (rounds - 1) as nat, mid);
        lemma_point_count_positive((rounds - 1) as nat);
    }
}

/// Where `divide` is deterministic, a round has one outcome.
pub proof fn lemma_round_is_determined<P, F: Fn(P, P) -> (P, P, P)>(
    divide: F,
    prev: Seq<P>,
    left: Seq<P>,
    right: Seq<P>,
)
    requires
        is_deterministic(divide),
        refines(divide, prev, left),
        refines(divide, prev, right),
    ensures
        left == right,
{
    if prev.len() > 0 {
        assert forall|j: int| 0 <= j < left.len() implies left[j] == right[j] by {
            let i = j / 4;
            if j < 4 * (prev.len() - 1) {
                assert(refines_at(divide, prev, left, i));
                assert(refines_at(divide, prev, right, i));
                let l = (left[4 * i + 1], left[4 * i + 2], left[4 * i + 3]);
                let r = (right[4 * i + 1], right[4 * i + 2], right[4 * i + 3]);
                assert(l == r);
            }
        }
    }
    assert(left =~= right);
}

/// Strategy equivalence and determinism: where `divide` is deterministic, any
/// two curves derived from one seed in the same number of rounds are the
/// same curve, point by point and in the same order, whichever strategy
/// computed either and however often it is computed again.
pub proof fn lemma_derivation_is_determined<P, F: Fn(P, P) -> (P, P, P)>(
    divide: F,
    seed: Seq<P>,
    rounds: nat,
    left: Seq<P>,
    right: Seq<P>,
)
    requires
        is_deterministic(divide),
        derives(divide, seed, rounds, left),
        derives(divide, seed, rounds, right),
    ensures
        left == right,
    decreases rounds,
{
    if rounds > 0 {
        let mid_left = choose|mid: Seq<P>|
            derives(divide, seed, (rounds - 1) as nat, mid) && #[trigger] refines(
                divide,
                mid,
                left,
            );
        let mid_right = choose|mid: Seq<P>|
            derives(divide, seed, (rounds - 1) as nat, mid) && #[trigger] refines(
                divide,
                mid,
                right,
            );
        lemma_derivation_is_determined(divide, seed, (rounds - 1) as nat, mid_left, mid_right);
        lemma_round_is_determined(divide, mid_left, left, right);
    }
}

} // verus!
