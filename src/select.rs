//! Keyframe selection: thresholding the per-pair scores.

use crate::score::{exceeds, Score, Threshold};
use vstd::prelude::*;

verus! {

/// Keyframe indices for `scores`: `i + 1` for every pair `i` whose score lies
/// strictly above `t`, in increasing order.
pub open spec fn keyframes(scores: Seq<Score>, t: (nat, nat)) -> Seq<usize>
    decreases scores.len(),
{
    if scores.len() == 0 {
        seq![]
    } else {
        let prev = keyframes(scores.drop_last(), t);
        if exceeds(scores.last(), t) {
            prev.push(scores.len() as usize)
        } else {
            prev
        }
    }
}

/// The keyframe list is strictly increasing, holds only indices of pairs
/// above the threshold (shifted by one), and holds every one of them.
pub proof fn lemma_keyframes(scores: Seq<Score>, t: (nat, nat))
    requires
        scores.len() <= usize::MAX,
    ensures
        forall|k: int|
            0 <= k < keyframes(scores, t).len() ==> 1 <= #[trigger] keyframes(scores, t)[k]
                <= scores.len() && exceeds(scores[keyframes(scores, t)[k] - 1], t),
        forall|k: int, l: int|
            0 <= k < l < keyframes(scores, t).len() ==> #[trigger] keyframes(scores, t)[k]
                < #[trigger] keyframes(scores, t)[l],
        forall|i: int|
            0 <= i < scores.len() && exceeds(#[trigger] scores[i], t) ==> keyframes(
                scores,
                t,
            ).contains((i + 1) as usize),
    decreases scores.len(),
{
    if scores.len() > 0 {
        let prev_scores = scores.drop_last();
        lemma_keyframes(prev_scores, t);
        let prev = keyframes(prev_scores, t);
        let r = keyframes(scores, t);
        assert forall|i: int| 0 <= i < scores.len() && exceeds(#[trigger] scores[i], t) implies r.contains(
            (i + 1) as usize,
        ) by {
            if i < scores.len() - 1 {
                assert(prev_scores[i] == scores[i]);
                let j = choose|j: int| 0 <= j < prev.len() && prev[j] == (i + 1) as usize;
                assert(r[j] == prev[j]);
            } else {
                assert(r[r.len() - 1] == scores.len() as usize);
            }
        }
        assert forall|k: int| 0 <= k < r.len() implies 1 <= #[trigger] r[k] <= scores.len() && exceeds(
            scores[r[k] - 1],
            t,
        ) by {
            if k < prev.len() {
                assert(r[k] == prev[k]);
                assert(prev_scores[prev[k] - 1] == scores[prev[k] - 1]);
            }
        }
    }
}

/// Indices `i + 1` of the pairs whose score lies strictly above `threshold`,
/// in increasing order.
pub fn select_keyframes(scores: &[Score], threshold: &Threshold) -> (r: Vec<usize>)
    ensures
        r@ == keyframes(scores@, threshold@),
        forall|k: int|
            0 <= k < r@.len() ==> 1 <= #[trigger] r@[k] <= scores@.len() && exceeds(
                scores@[r@[k] - 1],
                threshold@,
            ),
        forall|k: int, l: int| 0 <= k < l < r@.len() ==> #[trigger] r@[k] < #[trigger] r@[l],
        forall|i: int|
            0 <= i < scores@.len() && exceeds(#[trigger] scores@[i], threshold@) ==> r@.contains(
                (i + 1) as usize,
            ),
{
    let mut r: Vec<usize> = Vec::new();
    let n = scores.len();
    let mut i: usize = 0;
    while i < n
        invariant
            i <= n,
            n == scores@.len(),
            r@ == keyframes(scores@.take(i as int), threshold@),
        decreases n - i,
    {
        assert(scores@.take((i + 1) as int).drop_last() == scores@.take(i as int));
        if scores[i].exceeds(threshold) {
            r.push(i + 1);
        }
        i = i + 1;
    }
    assert(scores@.take(n as int) == scores@);
    proof {
        lemma_keyframes(scores@, threshold@);
    }
    r
}

/// The threshold is strict: a mean exactly at the threshold is not selected,
/// and a mean above it by any positive rational `en / ed` is.
pub proof fn lemma_threshold_is_strict(total: u64, pixels: u64, t: (nat, nat), en: nat, ed: nat)
    requires
        pixels > 0,
        t.1 > 0,
    ensures
        total * t.1 == t.0 * pixels ==> !exceeds(Score::Mean { total, pixels }, t),
        en > 0 && ed > 0 && total * (t.1 * ed) == (t.0 * ed + en * t.1) * pixels ==> exceeds(
            Score::Mean { total, pixels },
            t,
        ),
{
    if en > 0 && ed > 0 && total * (t.1 * ed) == (t.0 * ed + en * t.1) * pixels {
        let (x, y, p) = (total as int, t.0 as int, pixels as int);
        let (d, e, f) = (t.1 as int, en as int, ed as int);
        assert(x * d > y * p) by (nonlinear_arith)
            requires
                p > 0,
                d > 0,
                e > 0,
                f > 0,
                x * (d * f) == (y * f + e * d) * p,
        ;
    }
}

} // verus!
