use rust_video::error::EngineError;
use rust_video::frame::{PyVideoFrame, ALIGNMENT, DEFAULT_BLOCK_SIZE};
use rust_video::kernel::{block_sad, Tier};
use rust_video::score::Score;

fn frame(index: usize, width: usize, height: usize, data: Vec<u8>) -> PyVideoFrame {
    PyVideoFrame::new(index, width, height, data).expect("valid frame")
}

#[test]
fn new_pads_with_zeros_to_alignment() {
    let f = frame(3, 5, 2, vec![7u8; 10]);
    assert_eq!(f.padded_data().len(), 32);
    assert_eq!(f.padded_data().len() % ALIGNMENT, 0);
    assert!(f.padded_data()[..10].iter().all(|b| *b == 7));
    assert!(f.padded_data()[10..].iter().all(|b| *b == 0));
    assert_eq!(f.get_data(), &[7u8; 10][..]);
    assert_eq!(f.frame_number(), 3);
    assert_eq!(f.width(), 5);
    assert_eq!(f.height(), 2);
    assert_eq!(f.pixel_count(), 10);
}

#[test]
fn new_keeps_aligned_data() {
    let f = frame(0, 8, 4, vec![1u8; 32]);
    assert_eq!(f.padded_data().len(), 32);
    let g = frame(0, 8, 8, vec![1u8; 64]);
    assert_eq!(g.padded_data().len(), 64);
}

#[test]
fn new_rejects_bad_geometry() {
    assert_eq!(PyVideoFrame::new(0, 0, 4, vec![0u8; 4]).unwrap_err(), EngineError::Configuration);
    assert_eq!(PyVideoFrame::new(0, 4, 0, vec![0u8; 4]).unwrap_err(), EngineError::Configuration);
    assert_eq!(PyVideoFrame::new(0, 4, 4, vec![0u8; 15]).unwrap_err(), EngineError::Configuration);
    assert_eq!(
        PyVideoFrame::new(0, usize::MAX, 2, vec![0u8; 4]).unwrap_err(),
        EngineError::Configuration
    );
}

#[test]
fn identical_frames_score_zero() {
    let data: Vec<u8> = (0..300u32).map(|i| (i * 7) as u8).collect();
    let a = frame(0, 20, 15, data.clone());
    let b = frame(1, 20, 15, data);
    let zero = Score::Mean { total: 0, pixels: 300 };
    assert_eq!(a.calculate_difference(&b), zero);
    for tier in [Tier::Avx2, Tier::Sse2, Tier::Scalar] {
        assert_eq!(a.calculate_difference_parallel_simd(&b, 64, tier), zero);
        assert_eq!(a.calculate_difference_parallel_simd(&a, 7, tier), zero);
    }
}

#[test]
fn mismatched_dimensions_are_incomparable() {
    let a = frame(0, 4, 2, vec![0u8; 8]);
    let b = frame(1, 2, 4, vec![0u8; 8]);
    assert_eq!(a.calculate_difference(&b), Score::Incomparable);
    assert_eq!(a.calculate_difference_parallel_simd(&b, 3, Tier::Avx2), Score::Incomparable);
    assert_eq!(a.calculate_difference_parallel_simd(&b, 0, Tier::Scalar), Score::Incomparable);
    assert_eq!(a.calculate_difference_simd(&b, None, Tier::Sse2), Ok(Score::Incomparable));
}

#[test]
fn padding_does_not_affect_score() {
    let a = frame(0, 3, 3, vec![9u8; 9]);
    let mut longer = vec![9u8; 9];
    longer.extend_from_slice(&[200u8; 30]);
    let a2 = frame(0, 3, 3, longer);
    let b = frame(1, 3, 3, vec![1u8; 9]);
    let expected = Score::Mean { total: 72, pixels: 9 };
    assert_eq!(a.calculate_difference(&b), expected);
    assert_eq!(a2.calculate_difference(&b), expected);
    assert_eq!(a2.calculate_difference_parallel_simd(&b, 4, Tier::Avx2), expected);
}

#[test]
fn block_size_does_not_change_the_total() {
    let da: Vec<u8> = (0..15_000u32).map(|i| (i * 31 % 251) as u8).collect();
    let db: Vec<u8> = (0..15_000u32).map(|i| (i * 17 % 239) as u8).collect();
    let a = frame(0, 150, 100, da.clone());
    let b = frame(1, 150, 100, db.clone());
    let sum_blocks = |bs: usize, tier: Tier| -> u64 {
        let mut total = 0u64;
        let mut start = 0usize;
        while start < 15_000 {
            let len = bs.min(15_000 - start);
            total += block_sad(a.padded_data(), b.padded_data(), start, len, tier);
            start += len;
        }
        total
    };
    let small = sum_blocks(100, Tier::Avx2);
    let large = sum_blocks(10_000, Tier::Sse2);
    assert_eq!(small, large);
    let expected: u64 = da.iter().zip(&db).map(|(x, y)| (*x as i64 - *y as i64).unsigned_abs()).sum();
    assert_eq!(small, expected);
    let s100 = a.calculate_difference_parallel_simd(&b, 100, Tier::Avx2);
    let s10000 = a.calculate_difference_parallel_simd(&b, 10_000, Tier::Scalar);
    assert_eq!(s100, s10000);
    assert_eq!(s100, Score::Mean { total: expected, pixels: 15_000 });
}

#[test]
fn simd_difference_rejects_zero_block_size() {
    let a = frame(0, 2, 2, vec![0u8, 0, 0, 0]);
    let b = frame(1, 2, 2, vec![0u8, 0, 0, 100]);
    assert_eq!(a.calculate_difference_simd(&b, Some(0), Tier::Avx2), Err(EngineError::Configuration));
    assert_eq!(
        a.calculate_difference_simd(&b, Some(DEFAULT_BLOCK_SIZE), Tier::Avx2),
        Ok(Score::Mean { total: 100, pixels: 4 })
    );
}

#[test]
fn clone_keeps_the_frame() {
    let a = frame(5, 2, 2, vec![1u8, 2, 3, 4]);
    let c = a.clone();
    assert_eq!(c.frame_number(), 5);
    assert_eq!(c.get_data(), a.get_data());
    assert_eq!(c.padded_data(), a.padded_data());
}
