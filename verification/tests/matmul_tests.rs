use batched_matmul::broadcast::resolve_broadcast;
use batched_matmul::error::MatmulError;
use batched_matmul::matmul::{matmul, matmul_with_mode};
use batched_matmul::parallel::ExecutionMode;
use batched_matmul::parallel::IntoParallelIterator;
use batched_matmul::tensor::{NdArrayTensor, TensorData};

fn tensor(shape: Vec<usize>, value: Vec<i64>) -> NdArrayTensor {
    NdArrayTensor::from_data(TensorData { value, shape })
}

#[test]
fn equal_batch_sizes_multiply_slice_by_slice() {
    // Batch 0: [[1,2],[3,4]] x identity; batch 1: [[5,6],[7,8]] x 2*identity.
    let lhs = tensor(vec![2usize, 2, 2], vec![1i64, 2, 3, 4, 5, 6, 7, 8]);
    let rhs = tensor(vec![2usize, 2, 2], vec![1i64, 0, 0, 1, 2, 0, 0, 2]);
    let out = matmul(&lhs, &rhs).unwrap();
    assert_eq!(out.shape, vec![2usize, 2, 2]);
    assert_eq!(out.data, vec![1i64, 2, 3, 4, 10, 12, 14, 16]);
}

#[test]
fn lhs_batch_of_one_broadcasts() {
    // [[1,2],[3,4]] against identity, all-ones, and the column swap.
    let lhs = tensor(vec![1usize, 2, 2], vec![1i64, 2, 3, 4]);
    let rhs = tensor(vec![3usize, 2, 2], vec![1i64, 0, 0, 1, 1, 1, 1, 1, 0, 1, 1, 0]);
    let out = matmul(&lhs, &rhs).unwrap();
    assert_eq!(out.shape, vec![3usize, 2, 2]);
    assert_eq!(out.data, vec![1i64, 2, 3, 4, 3, 3, 7, 7, 2, 1, 4, 3]);
}

#[test]
fn rhs_batch_of_one_broadcasts() {
    let lhs = tensor(vec![3usize, 2, 2], vec![1i64, 0, 0, 1, 1, 2, 3, 4, 2, 2, 2, 2]);
    let rhs = tensor(vec![1usize, 2, 2], vec![1i64, 2, 3, 4]);
    let out = matmul(&lhs, &rhs).unwrap();
    assert_eq!(out.shape, vec![3usize, 2, 2]);
    assert_eq!(out.data, vec![1i64, 2, 3, 4, 7, 10, 15, 22, 8, 12, 8, 12]);
}

#[test]
fn degenerate_batch_is_a_single_dense_product() {
    // Rank 2: a plain 2x3 by 3x2 textbook product.
    let lhs = tensor(vec![2usize, 3], vec![1i64, 2, 3, 4, 5, 6]);
    let rhs = tensor(vec![3usize, 2], vec![7i64, 8, 9, 10, 11, 12]);
    let out = matmul(&lhs, &rhs).unwrap();
    assert_eq!(out.shape, vec![2usize, 2]);
    assert_eq!(out.data, vec![58i64, 64, 139, 154]);
}

#[test]
fn batch_of_one_on_both_sides_reduces_to_one_product() {
    let lhs = tensor(vec![1usize, 2, 3], vec![1i64, 2, 3, 4, 5, 6]);
    let rhs = tensor(vec![1usize, 3, 2], vec![7i64, 8, 9, 10, 11, 12]);
    let out = matmul(&lhs, &rhs).unwrap();
    assert_eq!(out.shape, vec![1usize, 2, 2]);
    assert_eq!(out.data, vec![58i64, 64, 139, 154]);
}

#[test]
fn mismatched_batches_are_an_unsupported_broadcast() {
    let lhs = tensor(vec![2usize, 2, 2], vec![1i64; 8]);
    let rhs = tensor(vec![3usize, 2, 2], vec![1i64; 12]);
    let err = matmul(&lhs, &rhs).unwrap_err();
    assert_eq!(err, MatmulError::UnsupportedBroadcast { lhs_batch: 2, rhs_batch: 3 });
}

#[test]
fn disagreeing_inner_dimensions_are_reported() {
    let lhs = tensor(vec![1usize, 2, 3], vec![1i64; 6]);
    let rhs = tensor(vec![1usize, 4, 2], vec![1i64; 8]);
    let err = matmul(&lhs, &rhs).unwrap_err();
    assert_eq!(err, MatmulError::DimensionMismatch { lhs_cols: 3, rhs_rows: 4 });
}

#[test]
fn rank_below_two_is_a_shape_error() {
    let lhs = tensor(vec![3usize], vec![1i64, 2, 3]);
    let rhs = tensor(vec![2usize, 2], vec![1i64; 4]);
    let err = matmul(&lhs, &rhs).unwrap_err();
    assert_eq!(err, MatmulError::Shape { rank: 1 });

    let lhs2 = tensor(vec![2usize, 2], vec![1i64; 4]);
    let rhs2 = tensor(vec![], vec![7i64]);
    let err2 = matmul(&lhs2, &rhs2).unwrap_err();
    assert_eq!(err2, MatmulError::Shape { rank: 0 });
}

#[test]
fn parallel_and_sequential_results_are_identical() {
    let lhs_value: Vec<i64> = (0..24).map(|x: i64| x * 3 - 20).collect();
    let rhs_value: Vec<i64> = (0..24).map(|x: i64| 7 - x).collect();
    let lhs = tensor(vec![4usize, 2, 3], lhs_value);
    let rhs = tensor(vec![4usize, 3, 2], rhs_value);
    let par = matmul_with_mode(ExecutionMode::Parallel, &lhs, &rhs).unwrap();
    let seq = matmul_with_mode(ExecutionMode::Sequential, &lhs, &rhs).unwrap();
    assert_eq!(par, seq);
    let default = matmul(&lhs, &rhs).unwrap();
    assert_eq!(default, seq);
}

#[test]
fn results_do_not_depend_on_the_worker_pool_size() {
    let lhs_value: Vec<i64> = (0..40).map(|x: i64| x - 13).collect();
    let rhs_value: Vec<i64> = (0..100).map(|x: i64| 2 * x + 1).collect();
    let lhs = tensor(vec![5usize, 2, 4], lhs_value);
    let rhs = tensor(vec![5usize, 4, 5], rhs_value);
    let baseline = matmul_with_mode(ExecutionMode::Sequential, &lhs, &rhs).unwrap();
    for threads in [1usize, 2, 4] {
        let pool = rayon::ThreadPoolBuilder::new().num_threads(threads).build().unwrap();
        let out = pool.install(|| matmul(&lhs, &rhs)).unwrap();
        assert_eq!(out, baseline);
    }
}

#[test]
fn consecutive_integers_times_padded_identity() {
    // lhs [2,3,4] filled with 0..24; rhs [2,4,5] holds in each batch the 4x4
    // identity padded with a zero column, so each lhs row gains a zero.
    let lhs_value: Vec<i64> = (0..24).map(|x: i64| x).collect();
    let mut rhs_value: Vec<i64> = Vec::new();
    for _batch in 0..2usize {
        for r in 0..4usize {
            for c in 0..5usize {
                rhs_value.push(if r == c { 1 } else { 0 });
            }
        }
    }
    let lhs = tensor(vec![2usize, 3, 4], lhs_value);
    let rhs = tensor(vec![2usize, 4, 5], rhs_value);
    let out = matmul(&lhs, &rhs).unwrap();
    assert_eq!(out.shape, vec![2usize, 3, 5]);
    let expected: Vec<i64> = vec![
        0, 1, 2, 3, 0, 4, 5, 6, 7, 0, 8, 9, 10, 11, 0, 12, 13, 14, 15, 0, 16, 17, 18, 19, 0, 20,
        21, 22, 23, 0,
    ];
    assert_eq!(out.data, expected);
}

#[test]
fn matches_ndarray_general_mat_mul() {
    let a_value: Vec<i64> = vec![3i64, -1, 4, 1, -5, 9];
    let b_value: Vec<i64> = vec![2i64, 7, 1, -8, 2, 8];
    let a = ndarray::Array2::from_shape_vec((2, 3), a_value.clone()).unwrap();
    let b = ndarray::Array2::from_shape_vec((3, 2), b_value.clone()).unwrap();
    let mut c = ndarray::Array2::<i64>::zeros((2, 2));
    ndarray::linalg::general_mat_mul(1, &a, &b, 0, &mut c);
    let reference: Vec<i64> = c.iter().cloned().collect();

    let out = matmul(&tensor(vec![2usize, 3], a_value), &tensor(vec![3usize, 2], b_value))
        .unwrap();
    assert_eq!(out.shape, vec![2usize, 2]);
    assert_eq!(out.data, reference);
}

#[test]
fn into_par_iter_hands_the_collection_back() {
    let v: Vec<usize> = vec![3, 1, 2];
    let w = v.clone().into_par_iter();
    assert_eq!(v, w);
}

#[test]
fn reshape_collapses_leading_axes_without_copying() {
    let value: Vec<i64> = (0..48).map(|x: i64| x).collect();
    let t = tensor(vec![2usize, 3, 4, 2], value);
    let v = batched_matmul::matmul::reshape(&t).unwrap();
    assert_eq!(v.batch, 6);
    assert_eq!(v.rows, 4);
    assert_eq!(v.cols, 2);
    // The view is bookkeeping only: the tensor still owns its buffer.
    assert_eq!(t.data.len(), 48);
}

#[test]
fn rank_one_shape_cannot_be_collapsed() {
    let t = tensor(vec![5usize], vec![1i64; 5]);
    let err = batched_matmul::matmul::reshape(&t).unwrap_err();
    assert_eq!(err, MatmulError::Shape { rank: 1 });
}

#[test]
fn broadcast_plan_takes_the_larger_batch() {
    let plan = resolve_broadcast(1, 4).unwrap();
    assert_eq!(plan.effective_batch, 4);
    assert!(plan.lhs_broadcasts);
    assert!(!plan.rhs_broadcasts);

    let even = resolve_broadcast(3, 3).unwrap();
    assert_eq!(even.effective_batch, 3);
    assert!(!even.lhs_broadcasts);
    assert!(!even.rhs_broadcasts);

    let err = resolve_broadcast(2, 3).unwrap_err();
    assert_eq!(err, MatmulError::UnsupportedBroadcast { lhs_batch: 2, rhs_batch: 3 });
}
