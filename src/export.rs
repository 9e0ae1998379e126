//! Mapping from frame indices to time offsets, for the exporter.

use vstd::arithmetic::div_mod::lemma_fundamental_div_mod;
use vstd::prelude::*;

verus! {

/// A time offset into a video, truncated to whole milliseconds.
#[derive(Clone, Copy, Debug, PartialEq, Eq, Structural)]
pub struct FrameOffset {
    pub secs: u64,
    /// Always below 1000.
    pub millis: u64,
}

/// Offset of frame `frame_index` in a video of `fps` frames per second,
/// truncated to the millisecond; `None` when `fps` is zero.
pub fn frame_offset(frame_index: u64, fps: u64) -> (r: Option<FrameOffset>)
    ensures
        fps == 0 <==> r is None,
        r matches Some(o) ==> {
            &&& o.secs == frame_index / fps
            &&& o.millis == ((frame_index % fps) as int * 1000) / (fps as int)
            &&& o.millis < 1000
            &&& o.secs * 1000 + o.millis == (frame_index as int * 1000) / (fps as int)
        },
{
    if fps == 0 {
        return None;
    }
    let secs = frame_index / fps;
    let rem = frame_index % fps;
    let scaled: u128 = (rem as u128) * 1000;
    let whole: u128 = scaled / (fps as u128);
    proof {
        let (i, f, q, m) = (frame_index as int, fps as int, secs as int, rem as int);
        lemma_fundamental_div_mod(i, f);
        assert(whole < 1000) by (nonlinear_arith)
            requires
                whole == (m * 1000) / f,
                0 <= m < f,
        ;
        assert(q * 1000 + whole == (i * 1000) / f) by (nonlinear_arith)
            requires
                i == f * q + m,
                0 <= m < f,
                whole == (m * 1000) / f,
        ;
    }
    let millis = whole as u64;
    Some(FrameOffset { secs, millis })
}

} // verus!
