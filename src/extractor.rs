//! The keyframe extractor: configuration shared by the front ends, and the
//! analysis of a frame sequence.

use crate::capability::CpuFeatures;
use crate::engine::{extract_keyframes_optimized, sequence_keyframes, views};
use crate::error::EngineError;
use crate::frame::{PyVideoFrame, DEFAULT_BLOCK_SIZE};
use crate::kernel::Tier;
use crate::parallel::{configure_global_pool, current_num_threads};
use crate::score::Threshold;
use vstd::prelude::*;

verus! {

/// Model of an extractor's configuration.
pub struct ExtractorView {
    pub ffmpeg_path: Seq<char>,
    pub threads: nat,
    pub verbose: bool,
    pub features: CpuFeatures,
}

/// Keyframe extraction settings: the decoder program, the worker count, the
/// verbosity, and the vector support detected on this processor.
pub struct VideoKeyframeExtractor {
    ffmpeg_path: String,
    threads: usize,
    verbose: bool,
    features: CpuFeatures,
}

impl View for VideoKeyframeExtractor {
    type V = ExtractorView;

    closed spec fn view(&self) -> ExtractorView {
        ExtractorView {
            ffmpeg_path: self.ffmpeg_path@,
            threads: self.threads as nat,
            verbose: self.verbose,
            features: self.features,
        }
    }
}

impl VideoKeyframeExtractor {
    /// An extractor.  A positive thread count is offered to rayon as the size
    /// of the global worker pool (ignored once that pool exists); zero stands
    /// for the size of the current pool.
    pub fn new(ffmpeg_path: String, threads: usize, verbose: bool, features: CpuFeatures) -> (r:
        VideoKeyframeExtractor)
        ensures
            r@.ffmpeg_path == ffmpeg_path@,
            threads > 0 ==> r@.threads == threads,
            threads == 0 ==> r@.threads >= 1,
            r@.verbose == verbose,
            r@.features == features,
    {
        let threads = if threads == 0 {
            current_num_threads()
        } else {
            let _ = configure_global_pool(threads);
            threads
        };
        VideoKeyframeExtractor { ffmpeg_path, threads, verbose, features }
    }

    /// Keyframe indices of `frames` under `threshold`.  Vector kernels are
    /// used unless `use_simd` is `Some(false)`; `block_size` defaults to
    /// `DEFAULT_BLOCK_SIZE`.  Fewer than two frames give no keyframes;
    /// otherwise a zero block size is a configuration error.
    pub fn extract_keyframes(
        &self,
        frames: &[PyVideoFrame],
        threshold: &Threshold,
        use_simd: Option<bool>,
        block_size: Option<usize>,
    ) -> (r: Result<Vec<usize>, EngineError>)
        ensures
            frames@.len() < 2 ==> (r matches Ok(k) && k@.len() == 0),
            frames@.len() >= 2 && block_size == Some(0usize) ==> r == Err::<Vec<usize>, EngineError>(
                EngineError::Configuration,
            ),
            block_size != Some(0usize) || frames@.len() < 2 ==> r is Ok,
            r matches Ok(k) ==> k@ == sequence_keyframes(views(frames@), threshold@),
    {
        let tier = match use_simd {
            Some(false) => Tier::Scalar,
            _ => self.features.best_tier(),
        };
        let bs = match block_size {
            Some(s) => s,
            None => DEFAULT_BLOCK_SIZE,
        };
        extract_keyframes_optimized(frames, threshold, tier, bs)
    }

    /// The decoder program.
    pub fn ffmpeg_path(&self) -> (r: &String)
        ensures
            r@ == self@.ffmpeg_path,
    {
        &self.ffmpeg_path
    }

    /// Whether progress is reported.
    pub fn verbose(&self) -> (r: bool)
        ensures
            r == self@.verbose,
    {
        self.verbose
    }

    /// The vector support this extractor was given.
    pub fn get_cpu_features(&self) -> (r: CpuFeatures)
        ensures
            r == self@.features,
    {
        self.features
    }

    /// The worker count in use.
    pub fn get_thread_count(&self) -> (r: usize)
        ensures
            r == self@.threads,
    {
        self.threads
    }

    /// The worker count that was configured.
    pub fn get_configured_threads(&self) -> (r: usize)
        ensures
            r == self@.threads,
    {
        self.threads
    }

    /// The size of the worker pool that parallel work runs on now.
    pub fn get_actual_thread_count(&self) -> (r: usize)
        ensures
            r >= 1,
    {
        current_num_threads()
    }
}

} // verus!
