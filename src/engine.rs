//! The pairwise difference engine over a frame sequence.

use crate::error::EngineError;
use crate::frame::{blocked_difference, difference, lemma_blocked_difference, FrameView, PyVideoFrame};
use crate::kernel::Tier;
use crate::parallel::par_map_indices;
use crate::score::{exceeds, Score, Threshold};
use crate::select::{keyframes, lemma_keyframes, select_keyframes};
use vstd::prelude::*;

verus! {

/// Models of a sequence of frames.
pub open spec fn views(frames: Seq<PyVideoFrame>) -> Seq<FrameView> {
    frames.map_values(|f: PyVideoFrame| f@)
}

/// One score per adjacent pair: pair `i` is frames `i` and `i + 1`.
pub open spec fn pair_scores(frames: Seq<FrameView>) -> Seq<Score> {
    if frames.len() < 2 {
        seq![]
    } else {
        Seq::new((frames.len() - 1) as nat, |i: int| difference(frames[i], frames[i + 1]))
    }
}

/// What the engine computes with blocks of `bs` pixels and the kernel of
/// `tier`.
pub open spec fn blocked_pair_scores(frames: Seq<FrameView>, bs: nat, tier: Tier) -> Seq<Score> {
    if frames.len() < 2 {
        seq![]
    } else {
        Seq::new(
            (frames.len() - 1) as nat,
            |i: int| blocked_difference(frames[i], frames[i + 1], bs, tier),
        )
    }
}

/// Keyframes of a frame sequence under threshold `t`.
pub open spec fn sequence_keyframes(frames: Seq<FrameView>, t: (nat, nat)) -> Seq<usize> {
    keyframes(pair_scores(frames), t)
}

/// The engine's scores depend on the frames alone: neither the block size,
/// nor the kernel tier, nor the number of workers or the order in which they
/// finish changes them, so two runs over the same frames agree.
pub proof fn lemma_scores_independent_of_configuration(
    frames: Seq<FrameView>,
    bs1: nat,
    tier1: Tier,
    bs2: nat,
    tier2: Tier,
)
    requires
        bs1 > 0,
        bs2 > 0,
    ensures
        blocked_pair_scores(frames, bs1, tier1) == blocked_pair_scores(frames, bs2, tier2),
        blocked_pair_scores(frames, bs1, tier1) == pair_scores(frames),
{
    assert forall|i: int| 0 <= i < frames.len() - 1 implies #[trigger] blocked_difference(
        frames[i],
        frames[i + 1],
        bs1,
        tier1,
    ) == difference(frames[i], frames[i + 1]) && blocked_difference(frames[i], frames[i + 1], bs2, tier2)
        == difference(frames[i], frames[i + 1]) by {
        lemma_blocked_difference(frames[i], frames[i + 1], bs1, tier1);
        lemma_blocked_difference(frames[i], frames[i + 1], bs2, tier2);
    }
    assert(blocked_pair_scores(frames, bs1, tier1) == pair_scores(frames));
    assert(blocked_pair_scores(frames, bs2, tier2) == pair_scores(frames));
}

/// A sequence of fewer than two frames has no scores and no keyframes.
pub proof fn lemma_short_sequences(frames: Seq<FrameView>, t: (nat, nat))
    requires
        frames.len() <= 1,
    ensures
        pair_scores(frames).len() == 0,
        sequence_keyframes(frames, t).len() == 0,
{
}

/// A pair of frames of different sizes is selected whatever the threshold.
pub proof fn lemma_mismatched_pair_selected(frames: Seq<FrameView>, i: int, t: (nat, nat))
    requires
        0 <= i < frames.len() - 1,
        frames.len() <= usize::MAX,
        frames[i].width != frames[i + 1].width || frames[i].height != frames[i + 1].height,
    ensures
        pair_scores(frames)[i] == Score::Incomparable,
        sequence_keyframes(frames, t).contains((i + 1) as usize),
{
    let s = pair_scores(frames);
    assert(exceeds(s[i], t));
    lemma_keyframes(s, t);
}

/// One score per adjacent pair of `frames`, computed with blocks of
/// `block_size` pixels and the kernel of `tier`; the pairs, and the blocks
/// within each pair, are computed in parallel.  Fewer than two frames give
/// no scores; otherwise a zero block size is a configuration error.
pub fn pair_differences(frames: &[PyVideoFrame], block_size: usize, tier: Tier) -> (r: Result<
    Vec<Score>,
    EngineError,
>)
    ensures
        frames@.len() < 2 ==> (r matches Ok(s) && s@.len() == 0),
        frames@.len() >= 2 && block_size == 0 ==> r == Err::<Vec<Score>, EngineError>(
            EngineError::Configuration,
        ),
        block_size > 0 || frames@.len() < 2 ==> r is Ok,
        r matches Ok(s) ==> s@ == pair_scores(views(frames@)),
        r matches Ok(s) ==> (block_size > 0 ==> s@ == blocked_pair_scores(
            views(frames@),
            block_size as nat,
            tier,
        )),
{
    let n = frames.len();
    if n < 2 {
        return Ok(Vec::new());
    }
    if block_size == 0 {
        return Err(EngineError::Configuration);
    }
    let count: usize = n - 1;
    let pair_kernel = |i: usize| -> (s: Score)
        requires
            i < count,
            count < n,
            n == frames@.len(),
            block_size > 0,
        ensures
            s == blocked_difference(frames@[i as int]@, frames@[i + 1]@, block_size as nat, tier),
        {
            frames[i].calculate_difference_parallel_simd(&frames[i + 1], block_size, tier)
        };
    let scores = par_map_indices(count, pair_kernel);
    proof {
        let v = views(frames@);
        assert(scores@ == blocked_pair_scores(v, block_size as nat, tier));
        lemma_scores_independent_of_configuration(v, block_size as nat, tier, block_size as nat, tier);
    }
    Ok(scores)
}

/// Keyframe indices of `frames`: the engine's scores thresholded strictly
/// above `threshold`.  Fewer than two frames give no keyframes; otherwise a
/// zero block size is a configuration error.
pub fn extract_keyframes_optimized(
    frames: &[PyVideoFrame],
    threshold: &Threshold,
    tier: Tier,
    block_size: usize,
) -> (r: Result<Vec<usize>, EngineError>)
    ensures
        frames@.len() < 2 ==> (r matches Ok(k) && k@.len() == 0),
        frames@.len() >= 2 && block_size == 0 ==> r == Err::<Vec<usize>, EngineError>(
            EngineError::Configuration,
        ),
        block_size > 0 || frames@.len() < 2 ==> r is Ok,
        r matches Ok(k) ==> k@ == sequence_keyframes(views(frames@), threshold@),
{
    if frames.len() < 2 {
        return Ok(Vec::new());
    }
    let scores = pair_differences(frames, block_size, tier)?;
    Ok(select_keyframes(scores.as_slice(), threshold))
}

} // verus!
