use rpade::dispatch::{matmul_2x2_tier, select_tier, CapabilitySet, Tier};
use rpade::mx::{mxArray, DOUBLE_CLASS};
use rpade::region::{split_run, triangle_column_run, Run};

fn caps(sse2: bool, avx: bool, avx2: bool, fma: bool) -> CapabilitySet {
    CapabilitySet { sse2, avx, avx2, fma }
}

#[test]
fn elementwise_tier_follows_capabilities_and_length() {
    let all = caps(true, true, true, true);
    assert_eq!(select_tier(&all, 100), Tier::Vec256);
    assert_eq!(select_tier(&all, 4), Tier::Vec256);
    assert_eq!(select_tier(&all, 3), Tier::Vec128);
    assert_eq!(select_tier(&all, 1), Tier::Scalar);
    assert_eq!(select_tier(&caps(true, false, false, false), 100), Tier::Vec128);
    assert_eq!(select_tier(&caps(false, false, false, false), 100), Tier::Scalar);
    assert_eq!(select_tier(&caps(false, true, false, false), 3), Tier::Scalar);
    assert_eq!(Tier::Vec256.lanes(), 4);
    assert_eq!(Tier::Vec128.lanes(), 2);
    assert_eq!(Tier::Scalar.lanes(), 1);
}

#[test]
fn matmul_tier_needs_avx2_and_fma() {
    assert_eq!(matmul_2x2_tier(&caps(true, true, true, true)), Tier::Vec256);
    assert_eq!(matmul_2x2_tier(&caps(true, true, true, false)), Tier::Vec128);
    assert_eq!(matmul_2x2_tier(&caps(false, true, false, true)), Tier::Scalar);
}

#[test]
fn runs_split_into_blocks_and_remainder() {
    assert_eq!(split_run(0, 7, 4), Run { start: 0, vector_end: 4, end: 7 });
    assert_eq!(split_run(0, 8, 4), Run { start: 0, vector_end: 8, end: 8 });
    assert_eq!(split_run(3, 5, 2), Run { start: 3, vector_end: 7, end: 8 });
    assert_eq!(split_run(5, 0, 4), Run { start: 5, vector_end: 5, end: 5 });
    for &len in [0usize, 1, 2, 3, 4, 5, 7, 8, 100].iter() {
        for &lanes in [1usize, 2, 4].iter() {
            let r = split_run(0, len, lanes);
            assert_eq!(r.vector_end % lanes, 0);
            assert!(r.end - r.vector_end < lanes);
            assert_eq!(r.end, len);
        }
    }
}

#[test]
fn triangle_columns_cover_rows_up_to_diagonal() {
    assert_eq!(triangle_column_run(5, 0, 4), Run { start: 0, vector_end: 0, end: 1 });
    assert_eq!(triangle_column_run(5, 2, 4), Run { start: 10, vector_end: 10, end: 13 });
    assert_eq!(triangle_column_run(5, 4, 4), Run { start: 20, vector_end: 24, end: 25 });
    assert_eq!(triangle_column_run(5, 4, 2), Run { start: 20, vector_end: 24, end: 25 });
    assert_eq!(triangle_column_run(8, 7, 4), Run { start: 56, vector_end: 64, end: 64 });
}

#[test]
fn array_descriptor_counts_elements() {
    let a = mxArray::new(vec![2, 3], DOUBLE_CLASS, false, false).unwrap();
    assert_eq!(a.numel(), 6);
    assert_eq!(a.dimensions(), &[2, 3]);
    assert!(a.is_double());
    assert!(!a.is_complex());
    assert!(!a.is_sparse());
    assert!(!a.is_empty());
    assert!(!a.is_scalar());
}

#[test]
fn is_scalar_and_is_empty() {
    let s = mxArray::new(vec![1, 1], DOUBLE_CLASS, false, false).unwrap();
    assert!(s.is_scalar());
    assert!(!s.is_empty());
    let e = mxArray::new(vec![0, 5], DOUBLE_CLASS, false, false).unwrap();
    assert!(e.is_empty());
    assert!(!e.is_scalar());
    assert_eq!(e.numel(), 0);
    let c = mxArray::new(vec![3, 3], 4, true, true).unwrap();
    assert!(!c.is_double());
    assert!(c.is_complex());
    assert!(c.is_sparse());
}

#[test]
fn array_descriptor_rejects_overflowing_counts() {
    assert!(mxArray::new(vec![usize::MAX, 2], DOUBLE_CLASS, false, false).is_none());
    let z = mxArray::new(vec![usize::MAX, 2, 0], DOUBLE_CLASS, false, false).unwrap();
    assert!(z.is_empty());
    let big = mxArray::new(vec![usize::MAX], DOUBLE_CLASS, false, false).unwrap();
    assert_eq!(big.numel(), usize::MAX);
}
