//! Streaming frame ingestion from a byte source of fixed-size records.
//!
//! The reader is a state machine: the caller pulls up to one frame's worth
//! of bytes from its source and hands the outcome over as a `ReadEvent`; the
//! reader decides whether a frame comes out and whether the stream is over.

use crate::error::EngineError;
use crate::frame::{padding, FrameView, PyVideoFrame, ALIGNMENT};
use crate::kernel::MAX_FRAME_PIXELS;
use vstd::prelude::*;
use vstd::slice::{slice_subrange, slice_to_vec};

verus! {

/// Frame sizes that the library accepts: positive dimensions, and a pixel
/// count that its sums and padded buffers can hold.
pub open spec fn valid_geometry(width: nat, height: nat) -> bool {
    &&& width > 0
    &&& height > 0
    &&& width * height <= MAX_FRAME_PIXELS
    &&& width * height + ALIGNMENT <= usize::MAX
}

/// Bytes of a frame's buffer: its record followed by the zero padding.
pub open spec fn padded(record: Seq<u8>) -> Seq<u8> {
    record + Seq::new(padding(record.len()), |i: int| 0u8)
}

/// What one read from the byte source produced.
#[derive(Debug)]
pub enum ReadEvent {
    /// Up to one frame's worth of bytes; fewer than a frame means that the
    /// source has ended.
    Record(Vec<u8>),
    /// The source failed for another reason than reaching its end.
    Failed,
}

/// Model of a reader.
pub struct ReaderView {
    pub width: nat,
    pub height: nat,
    /// Frame cap; zero means no cap.
    pub max_frames: nat,
    /// Frames handed out so far, which is also the next frame's index.
    pub emitted: nat,
    /// Whether the stream is over.
    pub finished: bool,
}

impl ReaderView {
    pub open spec fn frame_size(self) -> nat {
        self.width * self.height
    }

    /// Whether a frame handed out now would end the stream: the cap is
    /// reached, or the next index would not fit.
    pub open spec fn last_after(self, emitted: nat) -> bool {
        (self.max_frames > 0 && emitted >= self.max_frames) || emitted == usize::MAX
    }
}

/// Pulls fixed-size frames, numbered from zero, until a short record, a
/// failure, or the frame cap.
#[derive(Debug)]
pub struct FrameReader {
    width: usize,
    height: usize,
    frame_size: usize,
    max_frames: usize,
    emitted: usize,
    finished: bool,
}

impl View for FrameReader {
    type V = ReaderView;

    closed spec fn view(&self) -> ReaderView {
        ReaderView {
            width: self.width as nat,
            height: self.height as nat,
            max_frames: self.max_frames as nat,
            emitted: self.emitted as nat,
            finished: self.finished,
        }
    }
}

impl FrameReader {
    #[verifier::type_invariant]
    closed spec fn inv(self) -> bool {
        &&& valid_geometry(self.width as nat, self.height as nat)
        &&& self.frame_size == self.width * self.height
        &&& !self.finished ==> self.emitted < usize::MAX
    }

    /// A reader of `width` x `height` frames, at most `max_frames` of them
    /// (zero: no cap).  Fails with a configuration error on a geometry that
    /// `valid_geometry` refuses, a zero frame size among them.
    pub fn new(width: usize, height: usize, max_frames: usize) -> (r: Result<FrameReader, EngineError>)
        ensures
            !valid_geometry(width as nat, height as nat) ==> r == Err::<FrameReader, EngineError>(
                EngineError::Configuration,
            ),
            valid_geometry(width as nat, height as nat) ==> r is Ok,
            r matches Ok(reader) ==> reader@ == (ReaderView {
                width: width as nat,
                height: height as nat,
                max_frames: max_frames as nat,
                emitted: 0,
                finished: false,
            }),
    {
        if width == 0 || height == 0 {
            return Err(EngineError::Configuration);
        }
        let frame_size = match width.checked_mul(height) {
            Some(s) => s,
            None => {
                return Err(EngineError::Configuration);
            },
        };
        if frame_size as u64 > MAX_FRAME_PIXELS || frame_size > usize::MAX - ALIGNMENT {
            return Err(EngineError::Configuration);
        }
        Ok(FrameReader { width, height, frame_size, max_frames, emitted: 0, finished: false })
    }

    /// Bytes per frame record.
    pub fn frame_size(&self) -> (r: usize)
        ensures
            r == self@.frame_size(),
            valid_geometry(self@.width, self@.height),
    {
        proof {
            use_type_invariant(self);
        }
        self.frame_size
    }

    /// Whether the stream is over.
    pub fn is_finished(&self) -> (r: bool)
        ensures
            r == self@.finished,
    {
        self.finished
    }

    /// Number of frames handed out so far.
    pub fn frames_read(&self) -> (r: usize)
        ensures
            r == self@.emitted,
    {
        self.emitted
    }

    /// Takes the outcome of one read.  A full record (its first frame-size
    /// bytes) becomes the next frame; a short record ends the stream without
    /// error; a failure ends it with an I/O error.  Once the stream is over
    /// every event is ignored.
    pub fn step(&mut self, event: ReadEvent) -> (r: Result<Option<PyVideoFrame>, EngineError>)
        ensures
            final(self)@.width == old(self)@.width,
            final(self)@.height == old(self)@.height,
            final(self)@.max_frames == old(self)@.max_frames,
            old(self)@.finished ==> r == Ok::<Option<PyVideoFrame>, EngineError>(None),
            old(self)@.finished ==> final(self)@ == old(self)@,
            !old(self)@.finished && event is Failed ==> {
                &&& r == Err::<Option<PyVideoFrame>, EngineError>(EngineError::Io)
                &&& final(self)@.finished
                &&& final(self)@.emitted == old(self)@.emitted
            },
            event matches ReadEvent::Record(b) ==> (!old(self)@.finished && b@.len() < old(
                self,
            )@.frame_size() ==> {
                &&& r == Ok::<Option<PyVideoFrame>, EngineError>(None)
                &&& final(self)@.finished
                &&& final(self)@.emitted == old(self)@.emitted
            }),
            event matches ReadEvent::Record(b) ==> (!old(self)@.finished && b@.len() >= old(
                self,
            )@.frame_size() ==> {
                &&& r matches Ok(Some(f)) && f@ == (FrameView {
                    index: old(self)@.emitted,
                    width: old(self)@.width,
                    height: old(self)@.height,
                    data: padded(b@.take(old(self)@.frame_size() as int)),
                })
                &&& final(self)@.emitted == old(self)@.emitted + 1
                &&& final(self)@.finished == old(self)@.last_after(old(self)@.emitted + 1)
            }),
    {
        proof {
            use_type_invariant(&*self);
        }
        if self.finished {
            return Ok(None);
        }
        match event {
            ReadEvent::Failed => {
                self.finished = true;
                Err(EngineError::Io)
            },
            ReadEvent::Record(mut bytes) => {
                if bytes.len() < self.frame_size {
                    self.finished = true;
                    return Ok(None);
                }
                bytes.truncate(self.frame_size);
                let frame = match PyVideoFrame::new(self.emitted, self.width, self.height, bytes) {
                    Ok(f) => f,
                    Err(e) => {
                        self.finished = true;
                        return Err(e);
                    },
                };
                let next = self.emitted + 1;
                self.finished = (self.max_frames > 0 && next >= self.max_frames) || next == usize::MAX;
                self.emitted = next;
                Ok(Some(frame))
            },
        }
    }
}

/// Number of frames that a source of `len` bytes yields: one per whole record
/// of `frame_size` bytes, at most `max_frames` when that is not zero.
pub open spec fn frames_in(len: nat, frame_size: nat, max_frames: nat) -> nat {
    let whole = len / frame_size;
    if max_frames > 0 && max_frames < whole {
        max_frames
    } else {
        whole
    }
}

/// Reads every frame of an in-memory byte source: frame `i` holds bytes
/// `i * frame_size .. (i + 1) * frame_size`, padded.  A trailing partial
/// record is not a frame.  Fails with a configuration error on a geometry
/// that `valid_geometry` refuses.
pub fn read_frames(source: &[u8], width: usize, height: usize, max_frames: usize) -> (r: Result<
    Vec<PyVideoFrame>,
    EngineError,
>)
    ensures
        !valid_geometry(width as nat, height as nat) ==> r == Err::<Vec<PyVideoFrame>, EngineError>(
            EngineError::Configuration,
        ),
        valid_geometry(width as nat, height as nat) ==> r is Ok,
        r matches Ok(frames) ==> {
            let fs = width * height;
            &&& frames@.len() == frames_in(source@.len(), fs as nat, max_frames as nat)
            &&& forall|i: int|
                0 <= i < frames@.len() ==> (#[trigger] frames@[i])@ == (FrameView {
                    index: i as nat,
                    width: width as nat,
                    height: height as nat,
                    data: padded(source@.subrange(i * fs, (i + 1) * fs)),
                })
        },
{
    let mut reader = FrameReader::new(width, height, max_frames)?;
    let fs = reader.frame_size();
    let n = source.len();
    let ghost total = frames_in(n as nat, fs as nat, max_frames as nat);
    assert(fs > 0) by (nonlinear_arith)
        requires
            fs == width * height,
            width > 0,
            height > 0,
    ;
    let mut frames: Vec<PyVideoFrame> = Vec::new();
    let mut pos: usize = 0;
    while !reader.is_finished()
        invariant
            fs == width * height,
            fs > 0,
            valid_geometry(width as nat, height as nat),
            n == source@.len(),
            total == frames_in(n as nat, fs as nat, max_frames as nat),
            reader@.width == width,
            reader@.height == height,
            reader@.max_frames == max_frames,
            reader@.emitted == frames@.len(),
            pos == frames@.len() * fs,
            pos <= n,
            frames@.len() <= total,
            !reader@.finished ==> (max_frames == 0 || frames@.len() < max_frames) && frames@.len()
                < usize::MAX,
            reader@.finished ==> frames@.len() == total,
            forall|i: int|
                0 <= i < frames@.len() ==> (#[trigger] frames@[i])@ == (FrameView {
                    index: i as nat,
                    width: width as nat,
                    height: height as nat,
                    data: padded(source@.subrange(i * fs, (i + 1) * fs)),
                }),
        decreases (n - pos) + if reader@.finished {
            0int
        } else {
            1int
        },
    {
        let ghost k = frames@.len();
        proof {
            assert(k * fs + fs == (k + 1) * fs) by (nonlinear_arith);
        }
        if n - pos >= fs {
            proof {
                assert(k + 1 <= n / fs) by (nonlinear_arith)
                    requires
                        (k + 1) * fs <= n,
                        fs > 0,
                ;
            }
            let record = slice_to_vec(slice_subrange(source, pos, pos + fs));
            let stepped = reader.step(ReadEvent::Record(record));
            let frame = match stepped {
                Ok(Some(f)) => f,
                _ => {
                    // A full record always yields a frame while the stream is open.
                    proof {
                        assert(false);
                    }
                    return Ok(frames);
                },
            };
            proof {
                assert(record@.take(fs as int) == source@.subrange(k * fs, (k + 1) * fs));
            }
            frames.push(frame);
            pos = pos + fs;
        } else {
            proof {
                assert(n / fs <= k) by (nonlinear_arith)
                    requires
                        n < (k + 1) * fs,
                        fs > 0,
                ;
            }
            let record = slice_to_vec(slice_subrange(source, pos, n));
            let _ = reader.step(ReadEvent::Record(record));
        }
    }
    Ok(frames)
}

} // verus!
