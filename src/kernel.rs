//! Sum-of-absolute-differences kernels over byte ranges.
//!
//! The scalar kernel walks byte by byte.  The packed kernels process the range
//! in groups of eight-byte lanes, as a packed SAD instruction does (one partial
//! sum per lane, then a horizontal add), and finish the tail bytewise.  Each
//! kernel is specified by the decomposition it computes, and all of them are
//! proved to agree with the plain sum.

use vstd::prelude::*;

verus! {

/// Largest logical pixel count of a frame: at this count the sum of absolute
/// differences, at most 255 per pixel, still fits in a `u64`.
pub const MAX_FRAME_PIXELS: u64 = 0x0101_0101_0101_0101;

/// Absolute difference of two samples, read as unsigned integers.
pub open spec fn abs_diff(x: u8, y: u8) -> nat {
    if x >= y {
        (x - y) as nat
    } else {
        (y - x) as nat
    }
}

/// Sum of `|a[i] - b[i]|` over the positions `lo <= i < hi`.
pub open spec fn sad(a: Seq<u8>, b: Seq<u8>, lo: int, hi: int) -> nat
    decreases hi - lo,
{
    if hi <= lo {
        0
    } else {
        sad(a, b, lo, hi - 1) + abs_diff(a[hi - 1], b[hi - 1])
    }
}

/// Vector instruction tiers, from most to least capable.
#[derive(Clone, Copy, Debug, PartialEq, Eq, Structural)]
pub enum Tier {
    /// 256-bit registers: one packed SAD covers four lanes of eight bytes.
    Avx2,
    /// 128-bit registers: one packed SAD covers two lanes of eight bytes.
    Sse2,
    /// No vector support: bytes are processed one at a time.
    Scalar,
}

impl Tier {
    /// Number of eight-byte lanes that one packed step of this tier covers.
    pub open spec fn lanes(self) -> nat {
        match self {
            Tier::Avx2 => 4,
            Tier::Sse2 => 2,
            Tier::Scalar => 0,
        }
    }

    /// Bytes consumed by one packed step (0 for the scalar tier).
    pub open spec fn group_len(self) -> nat {
        8 * self.lanes()
    }
}

/// Horizontal add of the per-lane sums of `lanes` consecutive eight-byte
/// lanes starting at `off`.
pub open spec fn lanes_sad(a: Seq<u8>, b: Seq<u8>, off: int, lanes: nat) -> nat
    decreases lanes,
{
    if lanes == 0 {
        0
    } else {
        lanes_sad(a, b, off, (lanes - 1) as nat) + sad(a, b, off + 8 * (lanes - 1), off + 8 * lanes)
    }
}

/// Sum over `groups` consecutive packed steps of `lanes` lanes each,
/// starting at `lo`.
pub open spec fn grouped_sad(a: Seq<u8>, b: Seq<u8>, lo: int, groups: nat, lanes: nat) -> nat
    decreases groups,
{
    if groups == 0 {
        0
    } else {
        grouped_sad(a, b, lo, (groups - 1) as nat, lanes) + lanes_sad(
            a,
            b,
            lo + (groups - 1) * (8 * lanes),
            lanes,
        )
    }
}

/// What the kernel of `tier` computes on the `len` bytes starting at `lo`:
/// as many whole packed steps as fit, then the remaining bytes one by one.
pub open spec fn tier_sad(tier: Tier, a: Seq<u8>, b: Seq<u8>, lo: int, len: nat) -> nat {
    if tier.lanes() == 0 {
        sad(a, b, lo, lo + len)
    } else {
        let g = tier.group_len();
        let groups = len / g;
        grouped_sad(a, b, lo, groups, tier.lanes()) + sad(a, b, lo + groups * g, lo + len)
    }
}

/// The sum over a range splits at any point inside it.
pub proof fn lemma_sad_split(a: Seq<u8>, b: Seq<u8>, lo: int, mid: int, hi: int)
    requires
        lo <= mid <= hi,
    ensures
        sad(a, b, lo, hi) == sad(a, b, lo, mid) + sad(a, b, mid, hi),
    decreases hi - mid,
{
    if hi > mid {
        lemma_sad_split(a, b, lo, mid, hi - 1);
    }
}

/// Each position contributes at most 255.
pub proof fn lemma_sad_bound(a: Seq<u8>, b: Seq<u8>, lo: int, hi: int)
    requires
        lo <= hi,
    ensures
        sad(a, b, lo, hi) <= 255 * (hi - lo),
    decreases hi - lo,
{
    if hi > lo {
        lemma_sad_bound(a, b, lo, hi - 1);
    }
}

/// Lane sums added horizontally give the plain sum over the lanes' bytes.
pub proof fn lemma_lanes_sad(a: Seq<u8>, b: Seq<u8>, off: int, lanes: nat)
    ensures
        lanes_sad(a, b, off, lanes) == sad(a, b, off, off + 8 * lanes),
    decreases lanes,
{
    if lanes > 0 {
        lemma_lanes_sad(a, b, off, (lanes - 1) as nat);
        lemma_sad_split(a, b, off, off + 8 * (lanes - 1), off + 8 * lanes);
    }
}

/// Whole packed steps give the plain sum over the bytes they cover.
pub proof fn lemma_grouped_sad(a: Seq<u8>, b: Seq<u8>, lo: int, groups: nat, lanes: nat)
    ensures
        grouped_sad(a, b, lo, groups, lanes) == sad(a, b, lo, lo + groups * (8 * lanes)),
    decreases groups,
{
    if groups == 0 {
        assert(groups * (8 * lanes) == 0);
    } else {
        let g = 8 * lanes;
        let prev = (groups - 1) as nat;
        lemma_grouped_sad(a, b, lo, prev, lanes);
        lemma_lanes_sad(a, b, lo + prev * g, lanes);
        assert(grouped_sad(a, b, lo, groups, lanes) == grouped_sad(a, b, lo, prev, lanes)
            + lanes_sad(a, b, lo + prev * g, lanes));
        assert(prev * g + g == groups * g) by (nonlinear_arith)
            requires
                prev == groups - 1,
        ;
        assert(0 <= prev * g) by (nonlinear_arith)
            requires
                g >= 0,
        ;
        lemma_sad_split(a, b, lo, lo + prev * g, lo + groups * g);
    }
}

/// Every tier's kernel computes the same sum as the scalar kernel, on every
/// byte range.
pub proof fn lemma_tiers_agree(tier: Tier, a: Seq<u8>, b: Seq<u8>, lo: int, len: nat)
    ensures
        tier_sad(tier, a, b, lo, len) == tier_sad(Tier::Scalar, a, b, lo, len),
        tier_sad(tier, a, b, lo, len) == sad(a, b, lo, lo + len),
{
    if tier.lanes() > 0 {
        let g = tier.group_len();
        let groups = len / g;
        lemma_grouped_sad(a, b, lo, groups, tier.lanes());
        assert(0 <= groups * g <= len) by (nonlinear_arith)
            requires
                g > 0,
                groups == len / g,
        ;
        lemma_sad_split(a, b, lo, lo + groups * g, lo + len);
    }
}

/// Splitting a range at any point never changes a kernel's total: the
/// results on the two parts add up to the result on the whole.
pub proof fn lemma_kernel_split(tier: Tier, a: Seq<u8>, b: Seq<u8>, lo: int, l1: nat, l2: nat)
    ensures
        tier_sad(tier, a, b, lo, l1) + tier_sad(tier, a, b, lo + l1, l2) == tier_sad(
            tier,
            a,
            b,
            lo,
            l1 + l2,
        ),
{
    lemma_tiers_agree(tier, a, b, lo, l1);
    lemma_tiers_agree(tier, a, b, lo + l1, l2);
    lemma_tiers_agree(tier, a, b, lo, l1 + l2);
    lemma_sad_split(a, b, lo, lo + l1, lo + l1 + l2);
}

/// Bytewise kernel over the `len` bytes starting at `start`.
fn scalar_sad(a: &[u8], b: &[u8], start: usize, len: usize) -> (r: u64)
    requires
        start + len <= a.len(),
        start + len <= b.len(),
        len <= MAX_FRAME_PIXELS,
    ensures
        r == sad(a@, b@, start as int, start + len),
{
    let end = start + len;
    let mut total: u64 = 0;
    let mut i: usize = start;
    while i < end
        invariant
            start <= i <= end,
            end == start + len,
            end <= a.len(),
            end <= b.len(),
            len <= MAX_FRAME_PIXELS,
            total == sad(a@, b@, start as int, i as int),
        decreases end - i,
    {
        proof {
            lemma_sad_bound(a@, b@, start as int, i as int);
        }
        let x = a[i];
        let y = b[i];
        let d: u64 = if x >= y {
            (x - y) as u64
        } else {
            (y - x) as u64
        };
        total = total + d;
        i = i + 1;
    }
    total
}

/// One lane: the sum over eight consecutive bytes starting at `off`.
fn lane_sad(a: &[u8], b: &[u8], off: usize) -> (r: u64)
    requires
        off + 8 <= a.len(),
        off + 8 <= b.len(),
    ensures
        r == sad(a@, b@, off as int, off + 8),
{
    let mut total: u64 = 0;
    let mut k: usize = 0;
    while k < 8
        invariant
            k <= 8,
            off + 8 <= a.len(),
            off + 8 <= b.len(),
            total == sad(a@, b@, off as int, off + k),
        decreases 8 - k,
    {
        proof {
            lemma_sad_bound(a@, b@, off as int, off + k);
        }
        let x = a[off + k];
        let y = b[off + k];
        let d: u64 = if x >= y {
            (x - y) as u64
        } else {
            (y - x) as u64
        };
        total = total + d;
        k = k + 1;
    }
    total
}

/// One packed step: the per-lane sums of `lanes` lanes, added horizontally.
fn packed_step(a: &[u8], b: &[u8], off: usize, lanes: usize) -> (r: u64)
    requires
        lanes <= 4,
        off + 8 * lanes <= a.len(),
        off + 8 * lanes <= b.len(),
    ensures
        r == lanes_sad(a@, b@, off as int, lanes as nat),
{
    let mut total: u64 = 0;
    let mut l: usize = 0;
    while l < lanes
        invariant
            l <= lanes <= 4,
            off + 8 * lanes <= a.len(),
            off + 8 * lanes <= b.len(),
            total == lanes_sad(a@, b@, off as int, l as nat),
            total <= 2040 * l,
        decreases lanes - l,
    {
        let part = lane_sad(a, b, off + 8 * l);
        proof {
            lemma_sad_bound(a@, b@, off + 8 * l, off + 8 * l + 8);
            assert(part <= 2040);
            assert(total + part <= 2040 * (l + 1));
        }
        total = total + part;
        l = l + 1;
    }
    total
}

/// Packed kernel: whole packed steps of `lanes` lanes, then the tail bytewise.
fn packed_sad(a: &[u8], b: &[u8], start: usize, len: usize, lanes: usize) -> (r: u64)
    requires
        lanes == 2 || lanes == 4,
        start + len <= a.len(),
        start + len <= b.len(),
        len <= MAX_FRAME_PIXELS,
    ensures
        r == grouped_sad(a@, b@, start as int, len as nat / (8 * lanes as nat), lanes as nat) + sad(
            a@,
            b@,
            start + (len as nat / (8 * lanes as nat)) * (8 * lanes),
            start + len,
        ),
{
    let g: usize = 8 * lanes;
    let groups: usize = len / g;
    let mut total: u64 = 0;
    let mut k: usize = 0;
    let mut off: usize = start;
    while k < groups
        invariant
            lanes == 2 || lanes == 4,
            g == 8 * lanes,
            groups == len / g,
            k <= groups,
            off == start + k * g,
            start + len <= a.len(),
            start + len <= b.len(),
            len <= MAX_FRAME_PIXELS,
            total == grouped_sad(a@, b@, start as int, k as nat, lanes as nat),
        decreases groups - k,
    {
        assert(k * g + g <= len) by (nonlinear_arith)
            requires
                k < groups,
                groups == len / g,
                g > 0,
        ;
        assert(k * g + g == (k + 1) * g) by (nonlinear_arith);
        let part = packed_step(a, b, off, lanes);
        proof {
            lemma_grouped_sad(a@, b@, start as int, k as nat, lanes as nat);
            lemma_lanes_sad(a@, b@, off as int, lanes as nat);
            lemma_sad_split(a@, b@, start as int, off as int, off + g);
            lemma_sad_bound(a@, b@, start as int, off + g);
        }
        total = total + part;
        off = off + g;
        k = k + 1;
    }
    assert(groups * g <= len) by (nonlinear_arith)
        requires
            groups == len / g,
            g > 0,
    ;
    proof {
        lemma_grouped_sad(a@, b@, start as int, groups as nat, lanes as nat);
        lemma_sad_split(a@, b@, start as int, off as int, start + len);
        lemma_sad_bound(a@, b@, start as int, start + len);
    }
    let tail = scalar_sad(a, b, off, start + len - off);
    total + tail
}

/// Sum of absolute differences over the `len` bytes starting at `start`,
/// computed with the kernel of `tier`.  The result is the same for every tier.
pub fn block_sad(a: &[u8], b: &[u8], start: usize, len: usize, tier: Tier) -> (r: u64)
    requires
        start + len <= a.len(),
        start + len <= b.len(),
        len <= MAX_FRAME_PIXELS,
    ensures
        r == tier_sad(tier, a@, b@, start as int, len as nat),
        r == sad(a@, b@, start as int, start + len),
{
    proof {
        lemma_tiers_agree(tier, a@, b@, start as int, len as nat);
    }
    match tier {
        Tier::Avx2 => packed_sad(a, b, start, len, 4),
        Tier::Sse2 => packed_sad(a, b, start, len, 2),
        Tier::Scalar => scalar_sad(a, b, start, len),
    }
}

} // verus!
