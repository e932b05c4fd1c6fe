use rocm_backend::error::BackendError;
use rocm_backend::layout::Layout;
use rocm_backend::matmul::{
    gemm_routine, GemmRoutine, HipDataType, HipblasComputeType, HipblasGemmAlgo,
    HipblasMatmulConfig, HipblasOperation,
};
use rocm_backend::storage::DType;

fn contiguous(dims: &[usize]) -> Layout {
    let mut stride = vec![1; dims.len()];
    for i in (0..dims.len().saturating_sub(1)).rev() {
        stride[i] = stride[i + 1] * dims[i + 1];
    }
    Layout::new(dims.to_vec(), stride, 0)
}

/// The layout of the transposed matrices of a contiguous tensor of extents `dims`.
fn transposed(dims: &[usize]) -> Layout {
    let plain = contiguous(dims);
    let (mut d, mut s) = (plain.dims, plain.stride);
    let rank = d.len();
    d.swap(rank - 2, rank - 1);
    s.swap(rank - 2, rank - 1);
    Layout::new(d, s, 0)
}

fn refused(bmnk: (usize, usize, usize, usize), lhs: &Layout, rhs: &Layout) -> String {
    match HipblasMatmulConfig::new(bmnk, lhs, rhs) {
        Err(BackendError::Msg(text)) => text,
        other => panic!("unexpected {other:?}"),
    }
}

/// Multiplies as the library does: every matrix column by column.
fn gemm(c: &HipblasMatmulConfig, a: &[i64], b: &[i64], len: usize) -> Vec<i64> {
    let mut out = vec![0; len];
    let at = |op, ld: i32, i: i32, j: i32| match op {
        HipblasOperation::NoTranspose => i as i64 + j as i64 * ld as i64,
        HipblasOperation::Transpose => j as i64 + i as i64 * ld as i64,
    };
    for q in 0..c.batch_count {
        for j in 0..c.n {
            for i in 0..c.m {
                let mut sum = 0;
                for p in 0..c.k {
                    sum += a[(q as i64 * c.stride_a + at(c.trans_a, c.lda, i, p)) as usize]
                        * b[(q as i64 * c.stride_b + at(c.trans_b, c.ldb, p, j)) as usize];
                }
                out[(q as i64 * c.stride_c + i as i64 + j as i64 * c.ldc as i64) as usize] = sum;
            }
        }
    }
    out
}

/// Multiplies by the layouts.
fn product(
    (b, m, n, k): (usize, usize, usize, usize),
    lhs: &Layout,
    rhs: &Layout,
    left: &[i64],
    right: &[i64],
) -> Vec<i64> {
    let at = |l: &Layout, q: usize, r: usize, c: usize| {
        let rank = l.dims.len();
        let mut offset = r * l.stride[rank - 2] + c * l.stride[rank - 1];
        let mut rest = q;
        for d in (0..rank - 2).rev() {
            offset += rest % l.dims[d] * l.stride[d];
            rest /= l.dims[d];
        }
        offset
    };
    let mut out = Vec::new();
    for q in 0..b {
        for r in 0..m {
            for c in 0..n {
                out.push((0..k).map(|p| left[at(lhs, q, r, p)] * right[at(rhs, q, p, c)]).sum());
            }
        }
    }
    out
}

fn check(bmnk: (usize, usize, usize, usize), lhs: &Layout, rhs: &Layout) {
    let left: Vec<i64> = (0..1000).map(|i| i * 7 % 31 - 11).collect();
    let right: Vec<i64> = (0..1000).map(|i| i * 5 % 29 - 13).collect();
    let config = HipblasMatmulConfig::new(bmnk, lhs, rhs).unwrap();
    let len = bmnk.0 * bmnk.1 * bmnk.2;
    assert_eq!(
        gemm(&config, &right, &left, len),
        product(bmnk, lhs, rhs, &left, &right)
    );
}

#[test]
fn plain_product_configuration() {
    let config =
        HipblasMatmulConfig::new((1, 2, 5, 3), &contiguous(&[2, 3]), &contiguous(&[3, 5])).unwrap();
    assert_eq!(
        config,
        HipblasMatmulConfig {
            trans_a: HipblasOperation::NoTranspose,
            trans_b: HipblasOperation::NoTranspose,
            m: 5,
            n: 2,
            k: 3,
            lda: 5,
            ldb: 3,
            ldc: 5,
            stride_a: 15,
            stride_b: 6,
            stride_c: 10,
            batch_count: 1,
        }
    );
}

#[test]
fn transposed_operands_are_read_transposed() {
    let config =
        HipblasMatmulConfig::new((1, 2, 5, 3), &transposed(&[3, 2]), &transposed(&[5, 3])).unwrap();
    assert_eq!(
        (config.trans_a, config.lda, config.trans_b, config.ldb),
        (HipblasOperation::Transpose, 3, HipblasOperation::Transpose, 2)
    );
}

#[test]
fn configured_products_are_the_products() {
    check((1, 2, 5, 3), &contiguous(&[2, 3]), &contiguous(&[3, 5]));
    check((1, 2, 5, 3), &transposed(&[3, 2]), &transposed(&[5, 3]));
    check((4, 2, 5, 3), &contiguous(&[4, 2, 3]), &transposed(&[4, 5, 3]));
    check((6, 2, 5, 3), &contiguous(&[2, 3, 2, 3]), &contiguous(&[2, 3, 3, 5]));
    check((6, 2, 5, 3), &transposed(&[2, 3, 3, 2]), &contiguous(&[2, 3, 3, 5]));
    check((1, 1, 1, 4), &contiguous(&[1, 4]), &contiguous(&[4, 1]));
    check((1, 3, 4, 1), &contiguous(&[3, 1]), &contiguous(&[1, 4]));
    // The right operand is the same matrix for every product.
    let shared = Layout::new(vec![4, 3, 5], vec![0, 5, 1], 0);
    check((4, 2, 5, 3), &contiguous(&[4, 2, 3]), &shared);
    // Two batch dimensions of which one has extent one.
    let outer_one = Layout::new(vec![1, 3, 2, 3], vec![99, 8, 3, 1], 0);
    check((3, 2, 5, 3), &outer_one, &contiguous(&[1, 3, 3, 5]));
    let inner_one = Layout::new(vec![3, 1, 2, 3], vec![8, 99, 3, 1], 0);
    check((3, 2, 5, 3), &inner_one, &contiguous(&[3, 1, 3, 5]));
}

#[test]
fn results_are_dense() {
    let config = HipblasMatmulConfig::new(
        (4, 2, 5, 3),
        &contiguous(&[4, 2, 3]),
        &contiguous(&[4, 3, 5]),
    )
    .unwrap();
    let mut places = Vec::new();
    for q in 0..4 {
        for r in 0..2 {
            for c in 0..5 {
                places.push(q * config.stride_c + c + r * config.ldc as i64);
            }
        }
    }
    assert_eq!(places, (0..40).collect::<Vec<i64>>());
}

#[test]
fn layouts_that_are_not_dense_are_refused() {
    let gaps = Layout::new(vec![3, 5], vec![10, 2], 0);
    let dense = contiguous(&[2, 3]);
    assert_eq!(
        refused((1, 2, 5, 3), &dense, &gaps),
        "ROCm matmul requires contiguous or simple-transpose rhs layout, got lhs stride [3, 1], rhs stride [10, 2], mnk (2, 5, 3)"
    );
    let gaps = Layout::new(vec![2, 3], vec![6, 2], 0);
    assert_eq!(
        refused((1, 2, 5, 3), &gaps, &contiguous(&[3, 5])),
        "ROCm matmul requires contiguous or simple-transpose lhs layout, got lhs stride [6, 2], rhs stride [5, 1], mnk (2, 5, 3)"
    );
}

#[test]
fn batches_that_do_not_collapse_are_refused() {
    let odd = Layout::new(vec![2, 3, 2, 3], vec![50, 6, 3, 1], 0);
    assert_eq!(
        refused((6, 2, 5, 3), &odd, &contiguous(&[2, 3, 3, 5])),
        "ROCm matmul unsupported lhs batch stride [50, 6, 3, 1] for dims [2, 3, 2, 3]"
    );
    let odd = Layout::new(vec![2, 3, 3, 5], vec![50, 15, 5, 1], 0);
    assert_eq!(
        refused((6, 2, 5, 3), &contiguous(&[2, 3, 2, 3]), &odd),
        "ROCm matmul unsupported rhs batch stride [50, 15, 5, 1] for dims [2, 3, 3, 5]"
    );
    let deep = contiguous(&[1, 1, 6, 2, 3]);
    assert_eq!(
        refused((6, 2, 5, 3), &deep, &contiguous(&[1, 1, 6, 3, 5])),
        "ROCm matmul unsupported lhs batch stride [36, 36, 6, 3, 1] for dims [1, 1, 6, 2, 3]"
    );
}

#[test]
fn routines_for_the_types_of_products() {
    assert_eq!(
        gemm_routine(DType::F32),
        Some(GemmRoutine::SgemmStridedBatched {
            alpha: 1.0f32.to_bits(),
            beta: 0.0f32.to_bits()
        })
    );
    assert_eq!(
        gemm_routine(DType::F64),
        Some(GemmRoutine::DgemmStridedBatched {
            alpha: 1.0f64.to_bits(),
            beta: 0.0f64.to_bits()
        })
    );
    assert_eq!(
        gemm_routine(DType::F16),
        Some(GemmRoutine::HgemmStridedBatched { alpha: 0x3c00, beta: 0 })
    );
    assert_eq!(
        gemm_routine(DType::BF16),
        Some(GemmRoutine::GemmStridedBatchedEx {
            alpha: 1.0f32.to_bits(),
            beta: 0.0f32.to_bits(),
            data_type: HipDataType::R16BF,
            compute_type: HipblasComputeType::Compute32F,
            algo: HipblasGemmAlgo::Default,
        })
    );
    for dtype in [DType::U8, DType::U32, DType::I16, DType::I32, DType::I64, DType::F8E4M3] {
        assert_eq!(gemm_routine(dtype), None);
    }
}
