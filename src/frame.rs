//! Frame buffers and the difference between two frames.

use crate::error::EngineError;
use crate::kernel::{block_sad, lemma_sad_bound, lemma_sad_split, lemma_tiers_agree, sad, tier_sad, Tier, MAX_FRAME_PIXELS};
use crate::parallel::par_map_indices;
use crate::score::Score;
use vstd::prelude::*;

verus! {

/// Frame data is zero-padded to a multiple of this many bytes, the width of
/// the widest packed step.
pub const ALIGNMENT: usize = 32;

/// Block size used when the caller gives none.
pub const DEFAULT_BLOCK_SIZE: usize = 8192;

/// Mathematical model of a frame.
pub struct FrameView {
    /// Position of the frame in its stream.
    pub index: nat,
    pub width: nat,
    pub height: nat,
    /// Pixel bytes, row after row, followed by padding.
    pub data: Seq<u8>,
}

impl FrameView {
    /// Number of meaningful bytes: one per pixel.
    pub open spec fn pixel_count(self) -> nat {
        self.width * self.height
    }

    /// The meaningful bytes, without padding.
    pub open spec fn pixels(self) -> Seq<u8> {
        self.data.take(self.pixel_count() as int)
    }

    /// Positive dimensions, a pixel count whose sum of differences fits in a
    /// `u64`, and data that covers the pixels and is padded to the alignment.
    pub open spec fn wf(self) -> bool {
        &&& self.width > 0
        &&& self.height > 0
        &&& self.pixel_count() <= MAX_FRAME_PIXELS
        &&& self.pixel_count() <= self.data.len()
        &&& self.data.len() <= usize::MAX
        &&& self.data.len() % (ALIGNMENT as nat) == 0
    }
}

/// Zero padding that brings `len` bytes up to a multiple of the alignment.
pub open spec fn padding(len: nat) -> nat {
    if len % (ALIGNMENT as nat) == 0 {
        0
    } else {
        (ALIGNMENT - len % (ALIGNMENT as nat)) as nat
    }
}

/// Mean absolute difference of two frames: `Mean` over the logical pixels when
/// the sizes agree, `Incomparable` otherwise.
pub open spec fn difference(a: FrameView, b: FrameView) -> Score {
    if a.width != b.width || a.height != b.height {
        Score::Incomparable
    } else {
        Score::Mean {
            total: sad(a.data, b.data, 0, a.pixel_count() as int) as u64,
            pixels: a.pixel_count() as u64,
        }
    }
}

/// Number of blocks of `bs` pixels that cover `n` pixels (the last may be
/// shorter).
pub open spec fn block_count(n: nat, bs: nat) -> nat {
    if n % bs == 0 {
        n / bs
    } else {
        n / bs + 1
    }
}

/// First pixel of block `k`, or `n` past the last block.
pub open spec fn block_start(k: nat, bs: nat, n: nat) -> nat {
    if k * bs <= n {
        k * bs
    } else {
        n
    }
}

/// Sum of the kernel results of `tier` over the first `k` blocks of `bs`
/// pixels of a frame pair with `n` pixels.
pub open spec fn blocked_sum(tier: Tier, a: Seq<u8>, b: Seq<u8>, n: nat, bs: nat, k: nat) -> nat
    decreases k,
{
    if k == 0 {
        0
    } else {
        let lo = block_start((k - 1) as nat, bs, n);
        let hi = block_start(k, bs, n);
        blocked_sum(tier, a, b, n, bs, (k - 1) as nat) + tier_sad(tier, a, b, lo as int, (hi - lo) as nat)
    }
}

/// What the block engine computes for a frame pair: the sizes compared, then
/// the kernel results of every block added up.
pub open spec fn blocked_difference(a: FrameView, b: FrameView, bs: nat, tier: Tier) -> Score {
    if a.width != b.width || a.height != b.height {
        Score::Incomparable
    } else {
        let n = a.pixel_count();
        Score::Mean {
            total: blocked_sum(tier, a.data, b.data, n, bs, block_count(n, bs)) as u64,
            pixels: n as u64,
        }
    }
}

/// Block starts never decrease.
proof fn lemma_block_start_monotone(j: nat, k: nat, bs: nat, n: nat)
    requires
        j <= k,
    ensures
        block_start(j, bs, n) <= block_start(k, bs, n),
{
    assert(j * bs <= k * bs) by (nonlinear_arith)
        requires
            j <= k,
    ;
}

/// Past the last block, the start is the end of the range.
proof fn lemma_block_count(n: nat, bs: nat)
    requires
        bs > 0,
    ensures
        block_start(block_count(n, bs), bs, n) == n,
        forall|k: nat| k < block_count(n, bs) ==> #[trigger] (k * bs) < n,
{
    let c = block_count(n, bs);
    assert(c * bs >= n) by (nonlinear_arith)
        requires
            bs > 0,
            c == (if n % bs == 0 { n / bs } else { n / bs + 1 }),
    ;
    assert forall|k: nat| k < c implies #[trigger] (k * bs) < n by {
        assert(k * bs < n) by (nonlinear_arith)
            requires
                bs > 0,
                k < c,
                c == (if n % bs == 0 { n / bs } else { n / bs + 1 }),
        ;
    }
}

/// The kernel results of the first `k` blocks add up to the plain sum over
/// the pixels those blocks cover.
proof fn lemma_blocked_sum(tier: Tier, a: Seq<u8>, b: Seq<u8>, n: nat, bs: nat, k: nat)
    ensures
        blocked_sum(tier, a, b, n, bs, k) == sad(a, b, 0, block_start(k, bs, n) as int),
    decreases k,
{
    if k == 0 {
        assert(0 * bs == 0);
    } else {
        let j = (k - 1) as nat;
        let lo = block_start(j, bs, n);
        let hi = block_start(k, bs, n);
        lemma_blocked_sum(tier, a, b, n, bs, j);
        lemma_block_start_monotone(j, k, bs, n);
        lemma_tiers_agree(tier, a, b, lo as int, (hi - lo) as nat);
        lemma_sad_split(a, b, 0, lo as int, hi as int);
    }
}

/// Block-size invariance: the block engine's total over a frame pair is the
/// same for every positive block size and every kernel tier, and equals the
/// plain sum over the pixels.
pub proof fn lemma_block_size_invariance(
    a: Seq<u8>,
    b: Seq<u8>,
    n: nat,
    bs1: nat,
    tier1: Tier,
    bs2: nat,
    tier2: Tier,
)
    requires
        bs1 > 0,
        bs2 > 0,
    ensures
        blocked_sum(tier1, a, b, n, bs1, block_count(n, bs1)) == blocked_sum(
            tier2,
            a,
            b,
            n,
            bs2,
            block_count(n, bs2),
        ),
        blocked_sum(tier1, a, b, n, bs1, block_count(n, bs1)) == sad(a, b, 0, n as int),
{
    lemma_block_count(n, bs1);
    lemma_block_count(n, bs2);
    lemma_blocked_sum(tier1, a, b, n, bs1, block_count(n, bs1));
    lemma_blocked_sum(tier2, a, b, n, bs2, block_count(n, bs2));
}

/// The block engine computes the mean difference, whatever the block size
/// and the tier.
pub proof fn lemma_blocked_difference(a: FrameView, b: FrameView, bs: nat, tier: Tier)
    requires
        bs > 0,
    ensures
        blocked_difference(a, b, bs, tier) == difference(a, b),
{
    lemma_block_size_invariance(a.data, b.data, a.pixel_count(), bs, tier, bs, tier);
}

/// Identical frames have a mean difference of zero.
pub proof fn lemma_identical_frames_score_zero(a: FrameView)
    ensures
        difference(a, a) == (Score::Mean { total: 0, pixels: a.pixel_count() as u64 }),
{
    lemma_sad_of_equal(a.data, 0, a.pixel_count() as int);
}

/// The sum of differences of a sequence with itself is zero.
proof fn lemma_sad_of_equal(a: Seq<u8>, lo: int, hi: int)
    ensures
        sad(a, a, lo, hi) == 0,
    decreases hi - lo,
{
    if hi > lo {
        lemma_sad_of_equal(a, lo, hi - 1);
    }
}

/// Frames of different sizes get the incomparable score.
pub proof fn lemma_mismatched_frames_incomparable(a: FrameView, b: FrameView)
    requires
        a.width != b.width || a.height != b.height,
    ensures
        difference(a, b) == Score::Incomparable,
{
}

/// Padding never affects the score: only the logical pixels are read.
pub proof fn lemma_padding_ignored(a: FrameView, a2: FrameView, b: FrameView)
    requires
        a.wf(),
        a2.wf(),
        a.width == a2.width,
        a.height == a2.height,
        a.pixels() == a2.pixels(),
    ensures
        difference(a, b) == difference(a2, b),
{
    if a.width == b.width && a.height == b.height {
        lemma_sad_prefix(a.data, a2.data, b.data, a.pixel_count() as int);
    }
}

/// The sum up to `hi` depends only on the first `hi` bytes.
proof fn lemma_sad_prefix(a: Seq<u8>, a2: Seq<u8>, b: Seq<u8>, hi: int)
    requires
        0 <= hi <= a.len(),
        hi <= a2.len(),
        a.take(hi) == a2.take(hi),
    ensures
        sad(a, b, 0, hi) == sad(a2, b, 0, hi),
    decreases hi,
{
    if hi > 0 {
        assert(a[hi - 1] == a.take(hi)[hi - 1]);
        assert(a2[hi - 1] == a2.take(hi)[hi - 1]);
        assert(a.take(hi - 1) == a.take(hi).take(hi - 1));
        assert(a2.take(hi - 1) == a2.take(hi).take(hi - 1));
        lemma_sad_prefix(a, a2, b, hi - 1);
    }
}

/// One grayscale frame: its position in the stream, its size, and its pixel
/// bytes padded with zeros to a multiple of the alignment.
#[derive(Debug)]
pub struct PyVideoFrame {
    frame_number: usize,
    width: usize,
    height: usize,
    data: Vec<u8>,
}

impl View for PyVideoFrame {
    type V = FrameView;

    closed spec fn view(&self) -> FrameView {
        FrameView {
            index: self.frame_number as nat,
            width: self.width as nat,
            height: self.height as nat,
            data: self.data@,
        }
    }
}

impl PyVideoFrame {
    #[verifier::type_invariant]
    closed spec fn inv(self) -> bool {
        self@.wf()
    }

    /// A frame from its pixel bytes, zero-padded to the alignment.  Fails
    /// with a configuration error when a dimension is zero, when the pixel
    /// count is above `MAX_FRAME_PIXELS`, or when `data` holds fewer bytes
    /// than pixels.
    pub fn new(frame_number: usize, width: usize, height: usize, data: Vec<u8>) -> (r: Result<
        PyVideoFrame,
        EngineError,
    >)
        requires
            data@.len() + ALIGNMENT <= usize::MAX,
        ensures
            r is Err <==> (width == 0 || height == 0 || width * height > MAX_FRAME_PIXELS || width
                * height > data@.len()),
            r is Err ==> r == Err::<PyVideoFrame, EngineError>(EngineError::Configuration),
            r matches Ok(f) ==> f@ == (FrameView {
                index: frame_number as nat,
                width: width as nat,
                height: height as nat,
                data: data@ + Seq::new(padding(data@.len()), |i: int| 0u8),
            }),
    {
        let available = data.len();
        if width == 0 || height == 0 {
            return Err(EngineError::Configuration);
        }
        let pixels = match width.checked_mul(height) {
            Some(p) => p,
            None => {
                assert(width * height > available);
                return Err(EngineError::Configuration);
            },
        };
        if pixels as u64 > MAX_FRAME_PIXELS || pixels > data.len() {
            return Err(EngineError::Configuration);
        }
        let mut padded = data;
        let rem = padded.len() % ALIGNMENT;
        if rem != 0 {
            let target = padded.len() + (ALIGNMENT - rem);
            while padded.len() < target
                invariant
                    target == data@.len() + padding(data@.len()),
                    data@.len() <= padded@.len() <= target,
                    padded@ == data@ + Seq::new((padded@.len() - data@.len()) as nat, |i: int| 0u8),
                decreases target - padded.len(),
            {
                padded.push(0u8);
            }
        }
        assert(padded@ == data@ + Seq::new(padding(data@.len()), |i: int| 0u8));
        assert(padded@.len() % 32 == 0);
        Ok(PyVideoFrame { frame_number, width, height, data: padded })
    }

    /// Position of the frame in its stream.
    pub fn frame_number(&self) -> (r: usize)
        ensures
            r == self@.index,
    {
        self.frame_number
    }

    /// Width in pixels.
    pub fn width(&self) -> (r: usize)
        ensures
            r == self@.width,
    {
        self.width
    }

    /// Height in pixels.
    pub fn height(&self) -> (r: usize)
        ensures
            r == self@.height,
    {
        self.height
    }

    /// Number of logical pixels.  Every frame is well formed.
    pub fn pixel_count(&self) -> (r: usize)
        ensures
            r == self@.pixel_count(),
            self@.wf(),
    {
        proof {
            use_type_invariant(self);
        }
        self.width * self.height
    }

    /// The logical pixel bytes, without padding.
    pub fn get_data(&self) -> (r: &[u8])
        ensures
            r@ == self@.pixels(),
    {
        let n = self.pixel_count();
        slice_prefix(self.data.as_slice(), n)
    }

    /// All bytes, padding included.
    pub fn padded_data(&self) -> (r: &[u8])
        ensures
            r@ == self@.data,
    {
        self.data.as_slice()
    }

    /// Mean difference from `other`, computed in one sequential scalar pass.
    pub fn calculate_difference(&self, other: &PyVideoFrame) -> (r: Score)
        ensures
            r == difference(self@, other@),
    {
        proof {
            use_type_invariant(self);
            use_type_invariant(other);
        }
        if self.width != other.width || self.height != other.height {
            return Score::Incomparable;
        }
        let n = self.width * self.height;
        proof {
            lemma_tiers_agree(Tier::Scalar, self.data@, other.data@, 0, n as nat);
        }
        let total = block_sad(self.data.as_slice(), other.data.as_slice(), 0, n, Tier::Scalar);
        Score::Mean { total, pixels: n as u64 }
    }

    /// Mean difference from `other`, with the pixel range split into blocks
    /// of `block_size`, the blocks dispatched in parallel to the kernel of
    /// `tier`, and the partial sums added up.  Frames of different sizes are
    /// incomparable whatever the block size; for frames of one size the block
    /// size must be positive.
    pub fn calculate_difference_parallel_simd(
        &self,
        other: &PyVideoFrame,
        block_size: usize,
        tier: Tier,
    ) -> (r: Score)
        requires
            self@.width == other@.width && self@.height == other@.height ==> block_size > 0,
        ensures
            r == blocked_difference(self@, other@, block_size as nat, tier),
            r == difference(self@, other@),
    {
        proof {
            use_type_invariant(self);
            use_type_invariant(other);
        }
        if self.width != other.width || self.height != other.height {
            return Score::Incomparable;
        }
        proof {
            lemma_blocked_difference(self@, other@, block_size as nat, tier);
        }
        let n = self.width * self.height;
        let bs = block_size;
        assert(n % bs != 0 ==> n / bs + 1 <= n) by (nonlinear_arith)
            requires
                bs > 0,
        ;
        let count = n / bs + if n % bs == 0 {
            0
        } else {
            1
        };
        let a = self.data.as_slice();
        let b = other.data.as_slice();
        proof {
            lemma_block_count(n as nat, bs as nat);
        }
        let block_kernel = |k: usize| -> (p: u64)
            requires
                k < count,
                count == block_count(n as nat, bs as nat),
                bs > 0,
                n <= a.len(),
                n <= b.len(),
                n <= MAX_FRAME_PIXELS,
            ensures
                p == tier_sad(
                    tier,
                    a@,
                    b@,
                    block_start(k as nat, bs as nat, n as nat) as int,
                    (block_start((k + 1) as nat, bs as nat, n as nat) - block_start(
                        k as nat,
                        bs as nat,
                        n as nat,
                    )) as nat,
                ),
            {
                proof {
                    lemma_block_count(n as nat, bs as nat);
                    assert((k as nat) * (bs as nat) < n);
                    assert((k + 1) * bs == k * bs + bs) by (nonlinear_arith);
                }
                let start = k * bs;
                let len = if n - start > bs {
                    bs
                } else {
                    n - start
                };
                block_sad(a, b, start, len, tier)
            };
        let parts = par_map_indices(count, block_kernel);
        let mut total: u64 = 0;
        let mut k: usize = 0;
        while k < count
            invariant
                k <= count,
                count == block_count(n as nat, bs as nat),
                bs > 0,
                n <= MAX_FRAME_PIXELS,
                n <= a@.len(),
                parts@.len() == count,
                forall|i: int|
                    0 <= i < count ==> #[trigger] parts@[i] == tier_sad(
                        tier,
                        a@,
                        b@,
                        block_start(i as nat, bs as nat, n as nat) as int,
                        (block_start((i + 1) as nat, bs as nat, n as nat) - block_start(
                            i as nat,
                            bs as nat,
                            n as nat,
                        )) as nat,
                    ),
                total == blocked_sum(tier, a@, b@, n as nat, bs as nat, k as nat),
            decreases count - k,
        {
            proof {
                lemma_blocked_sum(tier, a@, b@, n as nat, bs as nat, (k + 1) as nat);
                lemma_block_start_monotone((k + 1) as nat, count as nat, bs as nat, n as nat);
                lemma_block_count(n as nat, bs as nat);
                lemma_sad_bound(a@, b@, 0, block_start((k + 1) as nat, bs as nat, n as nat) as int);
            }
            total = total + parts[k];
            k = k + 1;
        }
        Score::Mean { total, pixels: n as u64 }
    }

    /// Mean difference from `other` with the block engine; `None` selects the
    /// default block size.  Fails with a configuration error when the block
    /// size is zero.
    pub fn calculate_difference_simd(
        &self,
        other: &PyVideoFrame,
        block_size: Option<usize>,
        tier: Tier,
    ) -> (r: Result<Score, EngineError>)
        ensures
            block_size == Some(0usize) ==> r == Err::<Score, EngineError>(EngineError::Configuration),
            block_size != Some(0usize) ==> r == Ok::<Score, EngineError>(difference(self@, other@)),
    {
        let bs = match block_size {
            Some(s) => s,
            None => DEFAULT_BLOCK_SIZE,
        };
        if bs == 0 {
            return Err(EngineError::Configuration);
        }
        Ok(self.calculate_difference_parallel_simd(other, bs, tier))
    }
}

impl Clone for PyVideoFrame {
    fn clone(&self) -> (r: PyVideoFrame)
        ensures
            r@ == self@,
    {
        proof {
            use_type_invariant(self);
        }
        PyVideoFrame {
            frame_number: self.frame_number,
            width: self.width,
            height: self.height,
            data: self.data.clone(),
        }
    }
}

/// The first `n` elements of `s`.
fn slice_prefix(s: &[u8], n: usize) -> (r: &[u8])
    requires
        n <= s@.len(),
    ensures
        r@ == s@.take(n as int),
{
    let (head, _) = s.split_at(n);
    head
}

} // verus!
