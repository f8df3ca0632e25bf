use crate::gemm::{bounded_elems, dense_matmul, mm_entry, MAX_INNER_DIM};
use vstd::prelude::*;

verus! {

/// Entry `(i, j)` of output batch `b`: the dense-product entry of the
/// operand slices chosen by the broadcast rule — slice 0 of a side whose
/// batch size is 1, slice `b` otherwise.
pub open spec fn batch_entry(
    lhs: Seq<i64>,
    lhs_batch: int,
    rhs: Seq<i64>,
    rhs_batch: int,
    m: int,
    k: int,
    n: int,
    b: int,
    i: int,
    j: int,
) -> int {
    let lb: int = if lhs_batch == 1 {
        0
    } else {
        b
    };
    let rb: int = if rhs_batch == 1 {
        0
    } else {
        b
    };
    mm_entry(lhs, lb * m * k, rhs, rb * k * n, k, n, i, j)
}

/// Preconditions shared by every batch computation: operand buffers of the
/// right extent, batch sizes that follow the broadcast rule, and the bounds
/// that keep every index and accumulator in range.
pub open spec fn batches_pre(
    lhs: Seq<i64>,
    lhs_batch: int,
    rhs: Seq<i64>,
    rhs_batch: int,
    batch: int,
    m: int,
    k: int,
    n: int,
) -> bool {
    &&& lhs.len() == lhs_batch * m * k
    &&& rhs.len() == rhs_batch * k * n
    &&& batch >= 1
    &&& (lhs_batch == 1 || lhs_batch == batch)
    &&& (rhs_batch == 1 || rhs_batch == batch)
    &&& k <= MAX_INNER_DIM
    &&& m * n <= usize::MAX
    &&& bounded_elems(lhs)
    &&& bounded_elems(rhs)
}

/// The collected per-batch outputs of the whole batched product, pinned
/// pointwise: one `m x n` buffer per output batch index.
pub open spec fn batches_post(
    r: Seq<Vec<i64>>,
    lhs: Seq<i64>,
    lhs_batch: int,
    rhs: Seq<i64>,
    rhs_batch: int,
    batch: int,
    m: int,
    k: int,
    n: int,
) -> bool {
    &&& r.len() == batch
    &&& forall|b: int| 0 <= b < batch ==> (#[trigger] r[b])@.len() == m * n
    &&& forall|b: int, i: int, j: int|
        0 <= b < batch && 0 <= i < m && 0 <= j < n ==> r[b]@[i * n + j] as int == batch_entry(
            lhs,
            lhs_batch,
            rhs,
            rhs_batch,
            m,
            k,
            n,
            b,
            i,
            j,
        )
}

/// Computes output batch `b`: selects the operand slices the broadcast rule
/// calls for and forms their dense product.
pub fn compute_batch(
    lhs: &Vec<i64>,
    lhs_batch: usize,
    rhs: &Vec<i64>,
    rhs_batch: usize,
    batch: usize,
    m: usize,
    k: usize,
    n: usize,
    b: usize,
) -> (r: Vec<i64>)
    requires
        batches_pre(
            lhs@,
            lhs_batch as int,
            rhs@,
            rhs_batch as int,
            batch as int,
            m as int,
            k as int,
            n as int,
        ),
        b < batch,
    ensures
        r@.len() == m * n,
        forall|i: int, j: int|
            0 <= i < m && 0 <= j < n ==> r@[i * n + j] as int == batch_entry(
                lhs@,
                lhs_batch as int,
                rhs@,
                rhs_batch as int,
                m as int,
                k as int,
                n as int,
                b as int,
                i,
                j,
            ),
{
    let lb: usize = if lhs_batch == 1 {
        0
    } else {
        b
    };
    let rb: usize = if rhs_batch == 1 {
        0
    } else {
        b
    };
    proof {
        assert(m * k <= lhs_batch * m * k) by (nonlinear_arith)
            requires
                lhs_batch >= 1,
                0 <= m,
                0 <= k,
        ;
        assert(k * n <= rhs_batch * k * n) by (nonlinear_arith)
            requires
                rhs_batch >= 1,
                0 <= k,
                0 <= n,
        ;
        assert(lb * (m * k) + m * k <= lhs_batch * m * k) by (nonlinear_arith)
            requires
                0 <= lb,
                lb < lhs_batch,
                0 <= m,
                0 <= k,
        ;
        assert(rb * (k * n) + k * n <= rhs_batch * k * n) by (nonlinear_arith)
            requires
                0 <= rb,
                rb < rhs_batch,
                0 <= k,
                0 <= n,
        ;
        assert(lb * (m * k) == lb * m * k) by (nonlinear_arith);
        assert(rb * (k * n) == rb * k * n) by (nonlinear_arith);
        vstd::std_specs::vec::axiom_spec_len(lhs);
        vstd::std_specs::vec::axiom_spec_len(rhs);
    }
    let a_off: usize = lb * (m * k);
    let b_off: usize = rb * (k * n);
    dense_matmul(lhs, a_off, rhs, b_off, m, k, n)
}

} // verus!
