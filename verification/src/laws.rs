use crate::batch::batch_entry;
use crate::broadcast::effective_batch;
use crate::gemm::mm_entry;
use crate::matmul::{flat_cell, matmul_ok_post, matmul_valid, out_shape_spec};
use crate::shape::{dims_positive, dims_product, lemma_dims_product_pos};
use crate::tensor::NdArrayTensor;
use vstd::arithmetic::div_mod::{lemma_fundamental_div_mod, lemma_mod_bound};
use vstd::prelude::*;

verus! {

proof fn lemma_batch_of_rank3(s: Seq<usize>)
    requires
        s.len() == 3,
    ensures
        dims_product(s.take(1)) == s[0],
{
    assert(s.take(1).drop_last() =~= Seq::<usize>::empty());
    assert(s.take(1).last() == s[0]);
    assert(dims_product(Seq::<usize>::empty()) == 1);
}

proof fn lemma_batch_of_rank2(s: Seq<usize>)
    requires
        s.len() == 2,
    ensures
        dims_product(s.take(0)) == 1,
{
    assert(s.take(0) =~= Seq::<usize>::empty());
}

proof fn lemma_flat_index_split(idx: int, eff: int, m: int, n: int) -> (bij: (int, int, int))
    requires
        eff >= 1,
        m >= 1,
        n >= 1,
        0 <= idx < eff * (m * n),
    ensures
        0 <= bij.0 < eff,
        0 <= bij.1 < m,
        0 <= bij.2 < n,
        idx == bij.0 * m * n + bij.1 * n + bij.2,
{
    let mn = m * n;
    assert(mn >= 1) by (nonlinear_arith)
        requires
            mn == m * n,
            m >= 1,
            n >= 1,
    ;
    lemma_fundamental_div_mod(idx, mn);
    lemma_mod_bound(idx, mn);
    let b = idx / mn;
    let rem = idx % mn;
    lemma_fundamental_div_mod(rem, n);
    lemma_mod_bound(rem, n);
    let i = rem / n;
    let j = rem % n;
    assert(0 <= b < eff) by (nonlinear_arith)
        requires
            idx == mn * b + rem,
            0 <= rem < mn,
            0 <= idx < eff * mn,
            mn >= 1,
    ;
    assert(0 <= i < m) by (nonlinear_arith)
        requires
            rem == n * i + j,
            0 <= j < n,
            0 <= rem < mn,
            mn == m * n,
            n >= 1,
    ;
    assert(b * m * n + i * n + j == mn * b + (n * i + j)) by (nonlinear_arith)
        requires
            mn == m * n,
    ;
    (b, i, j)
}

/// Equal batch sizes: for operand shapes (b, m, k) and (b, k, n) with
/// b >= 1, a successful product has shape (b, m, n), and every batch slice
/// is the dense product of the operands' slices at the same batch index.
pub proof fn lemma_equal_batch(
    lhs: NdArrayTensor,
    rhs: NdArrayTensor,
    out: NdArrayTensor,
    b: usize,
    m: usize,
    k: usize,
    n: usize,
)
    requires
        lhs.shape@ == seq![b, m, k],
        rhs.shape@ == seq![b, k, n],
        b >= 1,
        matmul_ok_post(lhs, rhs, out),
    ensures
        out.shape@ == seq![b, m, n],
        forall|bi: int, i: int, j: int|
            0 <= bi < b && 0 <= i < m && 0 <= j < n ==> flat_cell(
                out.data@,
                m as int,
                n as int,
                bi,
                i,
                j,
            ) as int == mm_entry(
                lhs.data@,
                bi * (m as int) * (k as int),
                rhs.data@,
                bi * (k as int) * (n as int),
                k as int,
                n as int,
                i,
                j,
            ),
{
    lemma_batch_of_rank3(lhs.shape@);
    lemma_batch_of_rank3(rhs.shape@);
    assert(out.shape@ =~= seq![b, m, n]);
    assert forall|bi: int, i: int, j: int|
        0 <= bi < b && 0 <= i < m && 0 <= j < n implies flat_cell(
        out.data@,
        m as int,
        n as int,
        bi,
        i,
        j,
    ) as int == mm_entry(
        lhs.data@,
        bi * (m as int) * (k as int),
        rhs.data@,
        bi * (k as int) * (n as int),
        k as int,
        n as int,
        i,
        j,
    ) by {
        assert(flat_cell(out.data@, m as int, n as int, bi, i, j) as int == batch_entry(
            lhs.data@,
            b as int,
            rhs.data@,
            b as int,
            m as int,
            k as int,
            n as int,
            bi,
            i,
            j,
        ));
    }
}

/// Left broadcast: for operand shapes (1, m, k) and (b, k, n) with b > 1, a
/// successful product has shape (b, m, n), and every batch multiplies the
/// left operand's single slice with the right operand's slice at that batch.
pub proof fn lemma_broadcast_lhs(
    lhs: NdArrayTensor,
    rhs: NdArrayTensor,
    out: NdArrayTensor,
    b: usize,
    m: usize,
    k: usize,
    n: usize,
)
    requires
        lhs.shape@ == seq![1, m, k],
        rhs.shape@ == seq![b, k, n],
        b > 1,
        matmul_ok_post(lhs, rhs, out),
    ensures
        out.shape@ == seq![b, m, n],
        forall|bi: int, i: int, j: int|
            0 <= bi < b && 0 <= i < m && 0 <= j < n ==> flat_cell(
                out.data@,
                m as int,
                n as int,
                bi,
                i,
                j,
            ) as int == mm_entry(
                lhs.data@,
                0,
                rhs.data@,
                bi * (k as int) * (n as int),
                k as int,
                n as int,
                i,
                j,
            ),
{
    lemma_batch_of_rank3(lhs.shape@);
    lemma_batch_of_rank3(rhs.shape@);
    assert(out.shape@ =~= seq![b, m, n]);
    assert forall|bi: int, i: int, j: int|
        0 <= bi < b && 0 <= i < m && 0 <= j < n implies flat_cell(
        out.data@,
        m as int,
        n as int,
        bi,
        i,
        j,
    ) as int == mm_entry(
        lhs.data@,
        0,
        rhs.data@,
        bi * (k as int) * (n as int),
        k as int,
        n as int,
        i,
        j,
    ) by {
        assert(flat_cell(out.data@, m as int, n as int, bi, i, j) as int == batch_entry(
            lhs.data@,
            1,
            rhs.data@,
            b as int,
            m as int,
            k as int,
            n as int,
            bi,
            i,
            j,
        ));
        assert(0 * (m as int) * (k as int) == 0);
    }
}

/// Right broadcast: the symmetric case — shapes (b, m, k) and (1, k, n)
/// with b > 1 give shape (b, m, n), every batch multiplying the left
/// operand's slice at that batch with the right operand's single slice.
pub proof fn lemma_broadcast_rhs(
    lhs: NdArrayTensor,
    rhs: NdArrayTensor,
    out: NdArrayTensor,
    b: usize,
    m: usize,
    k: usize,
    n: usize,
)
    requires
        lhs.shape@ == seq![b, m, k],
        rhs.shape@ == seq![1, k, n],
        b > 1,
        matmul_ok_post(lhs, rhs, out),
    ensures
        out.shape@ == seq![b, m, n],
        forall|bi: int, i: int, j: int|
            0 <= bi < b && 0 <= i < m && 0 <= j < n ==> flat_cell(
                out.data@,
                m as int,
                n as int,
                bi,
                i,
                j,
            ) as int == mm_entry(
                lhs.data@,
                bi * (m as int) * (k as int),
                rhs.data@,
                0,
                k as int,
                n as int,
                i,
                j,
            ),
{
    lemma_batch_of_rank3(lhs.shape@);
    lemma_batch_of_rank3(rhs.shape@);
    assert(out.shape@ =~= seq![b, m, n]);
    assert forall|bi: int, i: int, j: int|
        0 <= bi < b && 0 <= i < m && 0 <= j < n implies flat_cell(
        out.data@,
        m as int,
        n as int,
        bi,
        i,
        j,
    ) as int == mm_entry(
        lhs.data@,
        bi * (m as int) * (k as int),
        rhs.data@,
        0,
        k as int,
        n as int,
        i,
        j,
    ) by {
        assert(flat_cell(out.data@, m as int, n as int, bi, i, j) as int == batch_entry(
            lhs.data@,
            b as int,
            rhs.data@,
            1,
            m as int,
            k as int,
            n as int,
            bi,
            i,
            j,
        ));
        assert(0 * (k as int) * (n as int) == 0);
    }
}

/// Degenerate batch: two plain matrices — shapes (m, k) and (k, n), both
/// with collapsed batch size 1 — multiply to exactly the single dense
/// matrix product, with shape (m, n).
pub proof fn lemma_single_matrix(
    lhs: NdArrayTensor,
    rhs: NdArrayTensor,
    out: NdArrayTensor,
    m: usize,
    k: usize,
    n: usize,
)
    requires
        lhs.shape@ == seq![m, k],
        rhs.shape@ == seq![k, n],
        matmul_ok_post(lhs, rhs, out),
    ensures
        out.shape@ == seq![m, n],
        forall|i: int, j: int|
            0 <= i < m && 0 <= j < n ==> flat_cell(out.data@, m as int, n as int, 0, i, j) as int
                == mm_entry(lhs.data@, 0, rhs.data@, 0, k as int, n as int, i, j),
{
    lemma_batch_of_rank2(lhs.shape@);
    lemma_batch_of_rank2(rhs.shape@);
    assert(out.shape@ =~= seq![m, n]);
    assert forall|i: int, j: int|
        0 <= i < m && 0 <= j < n implies flat_cell(out.data@, m as int, n as int, 0, i, j) as int
        == mm_entry(lhs.data@, 0, rhs.data@, 0, k as int, n as int, i, j) by {
        assert(flat_cell(out.data@, m as int, n as int, 0, i, j) as int == batch_entry(
            lhs.data@,
            1,
            rhs.data@,
            1,
            m as int,
            k as int,
            n as int,
            0,
            i,
            j,
        ));
    }
}

/// Determinism: the success contract pins the whole result, so any two
/// results that satisfy it on the same operands are equal — in particular
/// the parallel and sequential execution strategies agree exactly.
pub proof fn lemma_matmul_deterministic(
    lhs: NdArrayTensor,
    rhs: NdArrayTensor,
    out1: NdArrayTensor,
    out2: NdArrayTensor,
)
    requires
        lhs.wf(),
        rhs.wf(),
        matmul_valid(lhs, rhs),
        matmul_ok_post(lhs, rhs, out1),
        matmul_ok_post(lhs, rhs, out2),
    ensures
        out1.shape@ == out2.shape@,
        out1.data@ == out2.data@,
{
    let m = lhs.rows();
    let n = rhs.cols();
    let eff = effective_batch(lhs.batch_size(), rhs.batch_size());
    assert(dims_positive(lhs.shape@.take(lhs.rank() - 2)));
    lemma_dims_product_pos(lhs.shape@.take(lhs.rank() - 2));
    assert(m >= 1 && n >= 1 && eff >= 1);
    assert forall|idx: int| 0 <= idx < out1.data@.len() implies out1.data@[idx]
        == out2.data@[idx] by {
        let bij = lemma_flat_index_split(idx, eff, m, n);
        let b = bij.0;
        let i = bij.1;
        let j = bij.2;
        assert(flat_cell(out1.data@, m, n, b, i, j) as int == batch_entry(
            lhs.data@,
            lhs.batch_size(),
            rhs.data@,
            rhs.batch_size(),
            m,
            lhs.cols(),
            n,
            b,
            i,
            j,
        ));
        assert(flat_cell(out2.data@, m, n, b, i, j) as int == batch_entry(
            lhs.data@,
            lhs.batch_size(),
            rhs.data@,
            rhs.batch_size(),
            m,
            lhs.cols(),
            n,
            b,
            i,
            j,
        ));
    }
    assert(out1.data@ =~= out2.data@);
}

} // verus!
