use rust_video::capability::CpuFeatures;
use rust_video::engine::{extract_keyframes_optimized, pair_differences};
use rust_video::error::EngineError;
use rust_video::export::{frame_offset, FrameOffset};
use rust_video::extractor::VideoKeyframeExtractor;
use rust_video::frame::PyVideoFrame;
use rust_video::kernel::Tier;
use rust_video::score::{Score, Threshold};
use rust_video::select::select_keyframes;

fn frame(index: usize, width: usize, height: usize, data: Vec<u8>) -> PyVideoFrame {
    PyVideoFrame::new(index, width, height, data).expect("valid frame")
}

fn three_small_frames() -> Vec<PyVideoFrame> {
    vec![
        frame(0, 2, 2, vec![0, 0, 0, 0]),
        frame(1, 2, 2, vec![0, 0, 0, 100]),
        frame(2, 2, 2, vec![0, 0, 0, 100]),
    ]
}

fn features_all() -> CpuFeatures {
    CpuFeatures { avx2: true, sse2: true, sse4_1: true, sse4_2: true, fma: true }
}

#[test]
fn end_to_end_three_frames() {
    let frames = three_small_frames();
    let threshold = Threshold::whole(10);
    for tier in [Tier::Avx2, Tier::Sse2, Tier::Scalar] {
        let scores = pair_differences(&frames, 8192, tier).unwrap();
        assert_eq!(
            scores,
            vec![Score::Mean { total: 100, pixels: 4 }, Score::Mean { total: 0, pixels: 4 }]
        );
        assert_eq!(extract_keyframes_optimized(&frames, &threshold, tier, 8192).unwrap(), vec![1]);
    }
    let extractor = VideoKeyframeExtractor::new("ffmpeg".to_string(), 2, false, features_all());
    assert_eq!(extractor.extract_keyframes(&frames, &threshold, None, None).unwrap(), vec![1]);
    assert_eq!(extractor.extract_keyframes(&frames, &threshold, Some(false), Some(1)).unwrap(), vec![1]);
}

#[test]
fn short_sequences_give_nothing() {
    let threshold = Threshold::whole(0);
    let none: Vec<PyVideoFrame> = Vec::new();
    let one = vec![frame(0, 2, 2, vec![1, 2, 3, 4])];
    let extractor = VideoKeyframeExtractor::new("ffmpeg".to_string(), 1, false, features_all());
    for frames in [&none, &one] {
        for bs in [0usize, 16] {
            assert!(pair_differences(frames, bs, Tier::Avx2).unwrap().is_empty());
            assert!(extract_keyframes_optimized(frames, &threshold, Tier::Avx2, bs).unwrap().is_empty());
            assert!(extractor.extract_keyframes(frames, &threshold, None, Some(bs)).unwrap().is_empty());
        }
    }
}

#[test]
fn zero_block_size_is_a_configuration_error() {
    let frames = three_small_frames();
    let threshold = Threshold::whole(1);
    assert_eq!(pair_differences(&frames, 0, Tier::Scalar), Err(EngineError::Configuration));
    assert_eq!(
        extract_keyframes_optimized(&frames, &threshold, Tier::Scalar, 0),
        Err(EngineError::Configuration)
    );
    let extractor = VideoKeyframeExtractor::new("ffmpeg".to_string(), 1, false, features_all());
    assert_eq!(
        extractor.extract_keyframes(&frames, &threshold, Some(true), Some(0)),
        Err(EngineError::Configuration)
    );
}

#[test]
fn threshold_is_strict() {
    // Mean 100 / 4 = 25.
    let scores = vec![Score::Mean { total: 100, pixels: 4 }];
    assert!(select_keyframes(&scores, &Threshold::whole(25)).is_empty());
    let just_below = Threshold::new(24_999_999, 1_000_000).unwrap();
    assert_eq!(select_keyframes(&scores, &just_below), vec![1]);
    let quarter = Threshold::new(99, 4).unwrap();
    assert_eq!(select_keyframes(&scores, &quarter), vec![1]);
    assert!(select_keyframes(&scores, &Threshold::new(100, 4).unwrap()).is_empty());
}

#[test]
fn mismatched_pair_always_selected() {
    let frames = vec![
        frame(0, 2, 2, vec![0, 0, 0, 0]),
        frame(1, 4, 1, vec![0, 0, 0, 0]),
        frame(2, 4, 1, vec![0, 0, 0, 0]),
    ];
    let huge = Threshold::whole(u64::MAX);
    assert_eq!(extract_keyframes_optimized(&frames, &huge, Tier::Sse2, 3).unwrap(), vec![1]);
    let scores = pair_differences(&frames, 3, Tier::Sse2).unwrap();
    assert_eq!(scores[0], Score::Incomparable);
    assert_eq!(scores[1], Score::Mean { total: 0, pixels: 4 });
}

#[test]
fn selection_exact_indices() {
    let scores = vec![
        Score::Mean { total: 5, pixels: 1 },
        Score::Mean { total: 1, pixels: 1 },
        Score::Incomparable,
        Score::Mean { total: 3, pixels: 1 },
        Score::Mean { total: 2, pixels: 1 },
    ];
    assert_eq!(select_keyframes(&scores, &Threshold::whole(2)), vec![1, 3, 4]);
    assert_eq!(select_keyframes(&scores, &Threshold::whole(0)), vec![1, 2, 3, 4, 5]);
    assert!(select_keyframes(&[], &Threshold::whole(0)).is_empty());
}

#[test]
fn threshold_rejects_zero_denominator() {
    assert!(Threshold::new(1, 0).is_none());
    let t = Threshold::new(5, 2).unwrap();
    assert_eq!((t.numerator(), t.denominator()), (5, 2));
    assert!(Score::Mean { total: 6, pixels: 2 }.exceeds(&t));
    assert!(!Score::Mean { total: 5, pixels: 2 }.exceeds(&t));
    assert!(Score::Incomparable.exceeds(&Threshold::whole(u64::MAX)));
}

fn varied_frames(count: usize) -> Vec<PyVideoFrame> {
    (0..count)
        .map(|k| {
            let data: Vec<u8> = (0..4_800u32).map(|i| ((i * (k as u32 + 3)) % 256) as u8).collect();
            frame(k, 80, 60, data)
        })
        .collect()
}

#[test]
fn runs_agree_across_configurations_and_pools() {
    let frames = varied_frames(6);
    let reference = pair_differences(&frames, 8192, Tier::Scalar).unwrap();
    let sequential: Vec<Score> = frames.windows(2).map(|p| p[0].calculate_difference(&p[1])).collect();
    assert_eq!(reference, sequential);
    for tier in [Tier::Avx2, Tier::Sse2, Tier::Scalar] {
        for bs in [1usize, 13, 100, 4_800, 10_000] {
            assert_eq!(pair_differences(&frames, bs, tier).unwrap(), reference);
        }
    }
    for threads in [1usize, 2, 5] {
        let pool = rayon::ThreadPoolBuilder::new().num_threads(threads).build().unwrap();
        let first = pool.install(|| pair_differences(&frames, 97, Tier::Avx2).unwrap());
        let second = pool.install(|| pair_differences(&frames, 97, Tier::Avx2).unwrap());
        assert_eq!(first, reference);
        assert_eq!(second, reference);
    }
}

#[test]
fn capability_tiers_in_order() {
    assert_eq!(features_all().available_tiers(), vec![Tier::Avx2, Tier::Sse2, Tier::Scalar]);
    assert_eq!(features_all().best_tier(), Tier::Avx2);
    let sse = CpuFeatures { avx2: false, sse2: true, sse4_1: true, sse4_2: false, fma: false };
    assert_eq!(sse.best_tier(), Tier::Sse2);
    assert_eq!(sse.available_tiers(), vec![Tier::Sse2, Tier::Scalar]);
    assert_eq!(CpuFeatures::scalar_only().best_tier(), Tier::Scalar);
    assert_eq!(CpuFeatures::scalar_only().available_tiers(), vec![Tier::Scalar]);
}

#[test]
fn extractor_settings() {
    let e = VideoKeyframeExtractor::new("/usr/bin/ffmpeg".to_string(), 3, true, features_all());
    assert_eq!(e.get_thread_count(), 3);
    assert_eq!(e.get_configured_threads(), 3);
    assert_eq!(e.ffmpeg_path(), "/usr/bin/ffmpeg");
    assert!(e.verbose());
    assert_eq!(e.get_cpu_features(), features_all());
    assert!(e.get_actual_thread_count() >= 1);
    let auto = VideoKeyframeExtractor::new("ffmpeg".to_string(), 0, false, features_all());
    assert!(auto.get_thread_count() >= 1);
    let reported = e.get_cpu_features();
    assert!(reported.sse4_1 && reported.sse4_2 && reported.fma);
    let scalar = CpuFeatures::scalar_only();
    assert!(!scalar.avx2 && !scalar.sse2 && !scalar.sse4_1 && !scalar.sse4_2 && !scalar.fma);
}

#[test]
fn frame_offsets() {
    assert_eq!(frame_offset(0, 30), Some(FrameOffset { secs: 0, millis: 0 }));
    assert_eq!(frame_offset(45, 30), Some(FrameOffset { secs: 1, millis: 500 }));
    assert_eq!(frame_offset(31, 30), Some(FrameOffset { secs: 1, millis: 33 }));
    assert_eq!(frame_offset(7, 0), None);
    assert_eq!(frame_offset(u64::MAX, 1), Some(FrameOffset { secs: u64::MAX, millis: 0 }));
}
