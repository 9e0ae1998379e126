use rust_video::kernel::{block_sad, Tier};

fn sample(len: usize, seed: u32) -> Vec<u8> {
    let mut state = seed;
    let mut out = Vec::with_capacity(len);
    for _ in 0..len {
        state = state.wrapping_mul(1_103_515_245).wrapping_add(12_345);
        out.push((state >> 16) as u8);
    }
    out
}

fn naive(a: &[u8], b: &[u8]) -> u64 {
    a.iter().zip(b).map(|(x, y)| (*x as i32 - *y as i32).unsigned_abs() as u64).sum()
}

#[test]
fn tiers_agree_on_every_length_and_offset() {
    let a = sample(200, 1);
    let b = sample(200, 2);
    for start in [0usize, 1, 7, 31] {
        for len in 0..(200 - start) {
            let expected = naive(&a[start..start + len], &b[start..start + len]);
            for tier in [Tier::Avx2, Tier::Sse2, Tier::Scalar] {
                assert_eq!(block_sad(&a, &b, start, len, tier), expected, "{:?} {} {}", tier, start, len);
            }
        }
    }
}

#[test]
fn kernel_exact_values() {
    let a = vec![0u8, 255, 10, 200];
    let b = vec![255u8, 0, 20, 100];
    for tier in [Tier::Avx2, Tier::Sse2, Tier::Scalar] {
        assert_eq!(block_sad(&a, &b, 0, 4, tier), 255 + 255 + 10 + 100);
        assert_eq!(block_sad(&a, &b, 1, 2, tier), 265);
        assert_eq!(block_sad(&a, &b, 2, 0, tier), 0);
    }
}

#[test]
fn kernel_full_groups_and_tail() {
    // 70 bytes: two 32-byte groups, four 16-byte groups, and a tail.
    let a = vec![255u8; 70];
    let b = vec![0u8; 70];
    for tier in [Tier::Avx2, Tier::Sse2, Tier::Scalar] {
        assert_eq!(block_sad(&a, &b, 0, 70, tier), 255 * 70);
    }
}

#[test]
fn splitting_a_range_keeps_the_total() {
    let a = sample(300, 5);
    let b = sample(300, 6);
    for tier in [Tier::Avx2, Tier::Sse2, Tier::Scalar] {
        let whole = block_sad(&a, &b, 3, 290, tier);
        for l1 in [0usize, 1, 31, 32, 100, 290] {
            let left = block_sad(&a, &b, 3, l1, tier);
            let right = block_sad(&a, &b, 3 + l1, 290 - l1, tier);
            assert_eq!(left + right, whole);
        }
    }
}
