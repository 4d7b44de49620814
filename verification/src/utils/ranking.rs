//! Ranking by a score that is a fraction of two numbers.

use vstd::prelude::*;

verus! {

/// Whether the score `a` is no greater than the score `b`. A score is a
/// numerator and a denominator.
pub open spec fn score_le(a: (u64, u64), b: (u64, u64)) -> bool {
    a.0 * b.1 <= b.0 * a.1
}

/// Whether the score `a` is less than the score `b`.
pub open spec fn score_lt(a: (u64, u64), b: (u64, u64)) -> bool {
    a.0 * b.1 < b.0 * a.1
}

/// Whether every score has a denominator that is not zero.
pub open spec fn proper(scores: Seq<(u64, u64)>) -> bool {
    forall|i: int| 0 <= i < scores.len() ==> (#[trigger] scores[i]).1 > 0
}

/// Whether `order` ranks the scores: it names every place once, the scores
/// do not rise along it, and equal scores stand in the order of their
/// places.
pub open spec fn is_ranking(order: Seq<usize>, scores: Seq<(u64, u64)>) -> bool {
    &&& order.len() == scores.len()
    &&& forall|i: int| 0 <= i < order.len() ==> (#[trigger] order[i]) < scores.len()
    &&& forall|i: int, j: int| 0 <= i < j < order.len() ==> #[trigger] order[i] != #[trigger] order[j]
    &&& forall|i: int, j: int|
        0 <= i < j < order.len() ==> score_le(
            scores[#[trigger] order[j] as int],
            scores[#[trigger] order[i] as int],
        )
    &&& forall|i: int, j: int|
        0 <= i < j < order.len() && score_le(
            scores[#[trigger] order[i] as int],
            scores[#[trigger] order[j] as int],
        ) ==> order[i] < order[j]
}

/// Whether the score `a` is less than the score `b`.
pub fn score_less(a: (u64, u64), b: (u64, u64)) -> (less: bool)
    ensures
        less == score_lt(a, b),
{
    assert(a.0 * b.1 <= u64::MAX * u64::MAX && b.0 * a.1 <= u64::MAX * u64::MAX)
        by (nonlinear_arith)
        requires
            a.0 <= u64::MAX,
            a.1 <= u64::MAX,
            b.0 <= u64::MAX,
            b.1 <= u64::MAX,
    ;
    (a.0 as u128) * (b.1 as u128) < (b.0 as u128) * (a.1 as u128)
}

/// Ranks the scores from the greatest to the least; equal scores keep the
/// order of their places.
pub fn rank(scores: &Vec<(u64, u64)>) -> (order: Vec<usize>)
    requires
        proper(scores@),
    ensures
        is_ranking(order@, scores@),
{
    let mut order: Vec<usize> = Vec::new();
    let mut i: usize = 0;
    while i < scores.len()
        invariant
            i <= scores.len(),
            proper(scores@),
            is_ranking(order@, scores@.take(i as int)),
        decreases scores.len() - i,
    {
        let ghost seen = scores@.take(i as int);
        let ghost next = scores@.take(i + 1);
        let ghost held = order@;
        let score = scores[i];
        let mut place: usize = 0;
        while place < order.len() && !score_less(scores[order[place]], score)
            invariant
                place <= order.len(),
                order@ == held,
                i < scores.len(),
                score == scores@[i as int],
                seen == scores@.take(i as int),
                is_ranking(held, seen),
                forall|q: int| 0 <= q < place ==> score_le(score, scores@[#[trigger] held[q] as int]),
            decreases order.len() - place,
        {
            assert(seen[held[place as int] as int] == scores@[held[place as int] as int]);
            place += 1;
        }
        order.insert(place, i);
        proof {
            let after = order@;
            assert(after == held.insert(place as int, i));
            assert forall|n: int| 0 <= n < held.len() implies seen[#[trigger] held[n] as int]
                == next[held[n] as int] && held[n] < i by {
            }
            assert forall|q: int| place <= q < held.len() implies score_lt(
                scores@[#[trigger] held[q] as int],
                score,
            ) by {
                let first_less = scores@[held[place as int] as int];
                let other = scores@[held[q] as int];
                assert(seen[held[place as int] as int] == first_less);
                assert(seen[held[q] as int] == other);
                if q > place {
                    assert(score_le(other, first_less));
                    lemma_strictly_below(other, first_less, score);
                }
            }
            assert forall|a: int, b: int| 0 <= a < b < after.len() implies #[trigger] after[a]
                != #[trigger] after[b] && score_le(next[after[b] as int], next[after[a] as int]) && (
            score_le(next[after[a] as int], next[after[b] as int]) ==> after[a] < after[b]) by {
                let from_a = if a < place {
                    a
                } else {
                    a - 1
                };
                let from_b = if b < place {
                    b
                } else {
                    b - 1
                };
                if a == place {
                    assert(after[a] == i);
                    assert(after[b] == held[from_b]);
                    assert(score_lt(scores@[held[from_b] as int], score));
                } else if b == place {
                    assert(after[b] == i);
                    assert(after[a] == held[from_a]);
                    assert(score_le(score, scores@[held[from_a] as int]));
                } else {
                    assert(after[a] == held[from_a]);
                    assert(after[b] == held[from_b]);
                }
            }
        }
        i += 1;
    }
    assert(scores@.take(i as int) == scores@);
    order
}

/// A score that is no greater than one that is less than a third is less
/// than the third.
proof fn lemma_strictly_below(a: (u64, u64), b: (u64, u64), c: (u64, u64))
    requires
        a.1 > 0,
        b.1 > 0,
        c.1 > 0,
        score_le(a, b),
        score_lt(b, c),
    ensures
        score_lt(a, c),
{
    let (an, ad, bn, bd, cn, cd) = (
        a.0 as int,
        a.1 as int,
        b.0 as int,
        b.1 as int,
        c.0 as int,
        c.1 as int,
    );
    assert(an * bd * cd <= bn * ad * cd) by (nonlinear_arith)
        requires
            an * bd <= bn * ad,
            cd > 0,
    ;
    assert(bn * cd * ad < cn * bd * ad) by (nonlinear_arith)
        requires
            bn * cd < cn * bd,
            ad > 0,
    ;
    assert(an * cd * bd < cn * ad * bd) by (nonlinear_arith)
        requires
            an * bd * cd <= bn * ad * cd,
            bn * cd * ad < cn * bd * ad,
    ;
    assert(an * cd < cn * ad) by (nonlinear_arith)
        requires
            an * cd * bd < cn * ad * bd,
            bd > 0,
    ;
}

} // verus!
