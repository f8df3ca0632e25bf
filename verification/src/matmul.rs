use crate::batch::{batch_entry, batches_post, batches_pre};
use crate::broadcast::{broadcast_ok, effective_batch, resolve_broadcast};
use crate::error::MatmulError;
use crate::gemm::{bounded_elems, MAX_INNER_DIM};
use crate::parallel::{run_batches, ExecutionMode};
use crate::shape::{
    dims_positive, dims_product, lemma_dims_product_last_two, lemma_dims_product_prefix_bound,
    lemma_dims_product_take_step,
};
use crate::tensor::NdArrayTensor;
use vstd::arithmetic::mul::lemma_mul_inequality;
use vstd::prelude::*;

verus! {

/// A 3-axis reinterpretation of a tensor's shape: all leading axes collapsed
/// into one batch axis, followed by the row and column axes. The view is
/// pure bookkeeping — the tensor's buffer is shared, never copied.
#[derive(Clone, Copy, Debug, PartialEq, Eq, Structural)]
pub struct BatchView {
    pub batch: usize,
    pub rows: usize,
    pub cols: usize,
}

/// Collapses a shape's leading axes into one batch extent. Fails when the
/// rank is below 2, since then there are no row and column axes.
pub fn collapse_shape(shape: &Vec<usize>) -> (r: Result<BatchView, MatmulError>)
    requires
        dims_positive(shape@),
        dims_product(shape@) <= usize::MAX,
    ensures
        r is Ok <==> shape@.len() >= 2,
        shape@.len() < 2 ==> r == Err::<BatchView, MatmulError>(
            (MatmulError::Shape { rank: shape@.len() as usize }),
        ),
        r is Ok ==> {
            let v = r->Ok_0;
            &&& v.batch as int == dims_product(shape@.take(shape@.len() - 2))
            &&& v.batch >= 1
            &&& v.rows == shape@[shape@.len() - 2]
            &&& v.cols == shape@[shape@.len() - 1]
        },
{
    let len = shape.len();
    if len < 2 {
        return Err(MatmulError::Shape { rank: len });
    }
    let mut batch: usize = 1;
    let mut i: usize = 0;
    while i < len - 2
        invariant
            len == shape@.len(),
            len >= 2,
            i <= len - 2,
            dims_positive(shape@),
            dims_product(shape@) <= usize::MAX,
            batch as int == dims_product(shape@.take(i as int)),
        decreases len - 2 - i,
    {
        proof {
            lemma_dims_product_take_step(shape@, i as int);
            lemma_dims_product_prefix_bound(shape@, i as int + 1);
        }
        batch = batch * shape[i];
        i = i + 1;
    }
    proof {
        lemma_dims_product_prefix_bound(shape@, len - 2);
    }
    Ok(BatchView { batch, rows: shape[len - 2], cols: shape[len - 1] })
}

/// Collapses a tensor's leading axes, yielding the (batch, rows, cols) view
/// of its buffer. No element moves: the buffer stays with the tensor and the
/// view only records the three collapsed extents.
pub fn reshape(t: &NdArrayTensor) -> (r: Result<BatchView, MatmulError>)
    requires
        t.wf(),
    ensures
        r is Ok <==> t.rank() >= 2,
        t.rank() < 2 ==> r == Err::<BatchView, MatmulError>(
            (MatmulError::Shape { rank: t.shape@.len() as usize }),
        ),
        r is Ok ==> {
            let v = r->Ok_0;
            &&& v.batch as int == t.batch_size()
            &&& v.batch >= 1
            &&& v.rows as int == t.rows()
            &&& v.cols as int == t.cols()
            &&& (v.batch as int) * (v.rows as int) * (v.cols as int) == t.data@.len()
        },
{
    proof {
        vstd::std_specs::vec::axiom_spec_len(&t.data);
    }
    let r = collapse_shape(&t.shape);
    proof {
        if t.shape@.len() >= 2 {
            lemma_dims_product_last_two(t.shape@);
        }
    }
    r
}

/// Builds the result shape: the template's axes with the last two
/// overwritten by the result's row and column counts.
pub fn assemble_shape(template: &Vec<usize>, rows: usize, cols: usize) -> (r: Vec<usize>)
    requires
        template@.len() >= 2,
    ensures
        r@ == template@.update(template@.len() - 2, rows).update(template@.len() - 1, cols),
{
    let len = template.len();
    let mut out: Vec<usize> = Vec::new();
    let mut i: usize = 0;
    while i < len - 2
        invariant
            len == template@.len(),
            len >= 2,
            i <= len - 2,
            out@ == template@.take(i as int),
        decreases len - 2 - i,
    {
        out.push(template[i]);
        assert(out@ =~= template@.take(i + 1));
        i = i + 1;
    }
    out.push(rows);
    out.push(cols);
    assert(out@ =~= template@.update(template@.len() - 2, rows).update(
        template@.len() - 1,
        cols,
    ));
    out
}

/// The element of a flat batched row-major buffer at batch `b`, row `i`,
/// column `j`.
pub open spec fn flat_cell(s: Seq<i64>, m: int, n: int, b: int, i: int, j: int) -> i64 {
    s[b * m * n + i * n + j]
}

proof fn lemma_flat_index_in_block(b: int, i: int, j: int, m: int, n: int)
    by (nonlinear_arith)
    requires
        0 <= b,
        0 <= i < m,
        0 <= j < n,
    ensures
        b * (m * n) <= b * m * n + i * n + j,
        b * m * n + i * n + j < (b + 1) * (m * n),
        b * m * n + i * n + j - b * (m * n) == i * n + j,
{
}

/// Concatenates the per-batch buffers into one flat batched buffer.
pub fn flatten_batches(batches: &Vec<Vec<i64>>, m: usize, n: usize) -> (r: Vec<i64>)
    requires
        m * n <= usize::MAX,
        batches@.len() * (m * n) <= usize::MAX,
        forall|b: int| 0 <= b < batches@.len() ==> (#[trigger] batches@[b])@.len() == m * n,
    ensures
        r@.len() == batches@.len() * (m * n),
        forall|b: int, i: int, j: int|
            0 <= b < batches@.len() && 0 <= i < m && 0 <= j < n ==> flat_cell(
                r@,
                m as int,
                n as int,
                b,
                i,
                j,
            ) == batches@[b]@[i * n + j],
{
    let total = batches.len();
    let mut out: Vec<i64> = Vec::new();
    let mut bi: usize = 0;
    while bi < total
        invariant
            bi <= total,
            total == batches@.len(),
            m * n <= usize::MAX,
            batches@.len() * (m * n) <= usize::MAX,
            forall|b: int| 0 <= b < batches@.len() ==> (#[trigger] batches@[b])@.len() == m * n,
            out@.len() == bi * (m * n),
            forall|b: int, i: int, j: int|
                0 <= b < bi && 0 <= i < m && 0 <= j < n ==> flat_cell(
                    out@,
                    m as int,
                    n as int,
                    b,
                    i,
                    j,
                ) == batches@[b]@[i * n + j],
        decreases total - bi,
    {
        proof {
            lemma_mul_inequality(bi as int + 1, total as int, (m * n) as int);
            assert((bi + 1) * (m * n) == bi * (m * n) + (m * n)) by (nonlinear_arith);
        }
        let row = &batches[bi];
        let ghost out0 = out@;
        let mut e: usize = 0;
        while e < row.len()
            invariant
                e <= row@.len(),
                row@ == batches@[bi as int]@,
                bi < batches@.len(),
                forall|b: int| 0 <= b < batches@.len() ==> (#[trigger] batches@[b])@.len() == m
                    * n,
                out0.len() == bi * (m * n),
                bi * (m * n) + (m * n) <= usize::MAX,
                out@ == out0 + batches@[bi as int]@.take(e as int),
            decreases row@.len() - e,
        {
            out.push(row[e]);
            assert(out@ =~= out0 + batches@[bi as int]@.take(e + 1));
            e = e + 1;
        }
        proof {
            assert(out@ =~= out0 + batches@[bi as int]@);
            assert((bi + 1) * (m * n) == bi * (m * n) + (m * n)) by (nonlinear_arith);
            if bi + 1 < total {
                lemma_mul_inequality(bi as int + 1, total as int, (m * n) as int);
            }
            assert forall|b: int, i: int, j: int|
                0 <= b < bi + 1 && 0 <= i < m && 0 <= j < n implies flat_cell(
                out@,
                m as int,
                n as int,
                b,
                i,
                j,
            ) == batches@[b]@[i * n + j] by {
                lemma_flat_index_in_block(b, i, j, m as int, n as int);
                if b < bi {
                    lemma_mul_inequality(b + 1, bi as int, (m * n) as int);
                    assert(flat_cell(out0, m as int, n as int, b, i, j) == batches@[b]@[i * n
                        + j]);
                } else {
                    assert(out@[bi * (m * n) + (i * n + j)] == batches@[bi as int]@[i * n + j]);
                }
            }
        }
        bi = bi + 1;
    }
    out
}

/// The operands admit a batched product: both have row and column axes, the
/// collapsed batch sizes follow the broadcast rule, and the inner dimensions
/// agree.
pub open spec fn matmul_valid(lhs: NdArrayTensor, rhs: NdArrayTensor) -> bool {
    &&& lhs.rank() >= 2
    &&& rhs.rank() >= 2
    &&& broadcast_ok(lhs.batch_size(), rhs.batch_size())
    &&& lhs.cols() == rhs.rows()
}

/// The error a rejected pair of operands is reported with: the first check
/// that fails, in the order the checks run — the left operand's
/// rank, the right operand's rank, the broadcast rule, the inner dimensions.
pub open spec fn matmul_err_spec(lhs: NdArrayTensor, rhs: NdArrayTensor) -> MatmulError {
    if lhs.rank() < 2 {
        MatmulError::Shape { rank: lhs.shape@.len() as usize }
    } else if rhs.rank() < 2 {
        MatmulError::Shape { rank: rhs.shape@.len() as usize }
    } else if !broadcast_ok(lhs.batch_size(), rhs.batch_size()) {
        MatmulError::UnsupportedBroadcast {
            lhs_batch: lhs.batch_size() as usize,
            rhs_batch: rhs.batch_size() as usize,
        }
    } else {
        MatmulError::DimensionMismatch {
            lhs_cols: lhs.shape@[lhs.rank() - 1],
            rhs_rows: rhs.shape@[rhs.rank() - 2],
        }
    }
}

/// The machine bounds a valid product must fit in: elements small enough
/// that no accumulated dot product leaves `i64`, and an output element count
/// that fits in `usize`.
pub open spec fn compute_fits(lhs: NdArrayTensor, rhs: NdArrayTensor) -> bool {
    &&& bounded_elems(lhs.data@)
    &&& bounded_elems(rhs.data@)
    &&& lhs.cols() <= MAX_INNER_DIM
    &&& effective_batch(lhs.batch_size(), rhs.batch_size()) * (lhs.rows() * rhs.cols())
        <= usize::MAX
}

/// The result shape: the shape of the operand with the larger collapsed
/// batch size (the right one on ties), with its last two axes overwritten by
/// the result's row and column counts.
pub open spec fn out_shape_spec(lhs: NdArrayTensor, rhs: NdArrayTensor) -> Seq<usize> {
    let template = if lhs.batch_size() > rhs.batch_size() {
        lhs.shape@
    } else {
        rhs.shape@
    };
    template.update(template.len() - 2, lhs.shape@[lhs.rank() - 2]).update(
        template.len() - 1,
        rhs.shape@[rhs.rank() - 1],
    )
}

/// What a successful product returns: a well-formed tensor with the
/// assembled shape, whose buffer holds, for every output batch `b`, the
/// dense product of the operand slices the broadcast rule selects.
pub open spec fn matmul_ok_post(lhs: NdArrayTensor, rhs: NdArrayTensor, out: NdArrayTensor) -> bool {
    let m = lhs.rows();
    let k = lhs.cols();
    let n = rhs.cols();
    let eff = effective_batch(lhs.batch_size(), rhs.batch_size());
    &&& out.wf()
    &&& out.shape@ == out_shape_spec(lhs, rhs)
    &&& out.data@.len() == eff * (m * n)
    &&& forall|b: int, i: int, j: int|
        0 <= b < eff && 0 <= i < m && 0 <= j < n ==> flat_cell(out.data@, m, n, b, i, j) as int
            == batch_entry(
            lhs.data@,
            lhs.batch_size(),
            rhs.data@,
            rhs.batch_size(),
            m,
            k,
            n,
            b,
            i,
            j,
        )
}

/// The full contract of the batched product: success exactly on valid
/// operands, the first failed check's error otherwise, and a pinned result
/// on success.
pub open spec fn matmul_post(
    lhs: NdArrayTensor,
    rhs: NdArrayTensor,
    r: Result<NdArrayTensor, MatmulError>,
) -> bool {
    &&& (r is Ok <==> matmul_valid(lhs, rhs))
    &&& (!matmul_valid(lhs, rhs) ==> r == Result::<NdArrayTensor, MatmulError>::Err(
        matmul_err_spec(lhs, rhs),
    ))
    &&& (r is Ok ==> matmul_ok_post(lhs, rhs, r->Ok_0))
}

/// The batched product of two tensors, computed with the given execution
/// strategy.
pub fn matmul_with_mode(mode: ExecutionMode, lhs: &NdArrayTensor, rhs: &NdArrayTensor) -> (r:
    Result<NdArrayTensor, MatmulError>)
    requires
        lhs.wf(),
        rhs.wf(),
        matmul_valid(*lhs, *rhs) ==> compute_fits(*lhs, *rhs),
    ensures
        matmul_post(*lhs, *rhs, r),
{
    let lv = match reshape(lhs) {
        Ok(v) => v,
        Err(e) => {
            return Err(e);
        },
    };
    let rv = match reshape(rhs) {
        Ok(v) => v,
        Err(e) => {
            return Err(e);
        },
    };
    let plan = match resolve_broadcast(lv.batch, rv.batch) {
        Ok(p) => p,
        Err(e) => {
            return Err(e);
        },
    };
    if lv.cols != rv.rows {
        return Err(MatmulError::DimensionMismatch { lhs_cols: lv.cols, rhs_rows: rv.rows });
    }
    let eff = plan.effective_batch;
    let m = lv.rows;
    let k = lv.cols;
    let n = rv.cols;
    proof {
        assert(matmul_valid(*lhs, *rhs));
        assert(m * n <= eff * (m * n) && eff * (m * n) <= usize::MAX) by (nonlinear_arith)
            requires
                eff >= 1,
                m >= 0,
                n >= 0,
                (eff as int) * ((m as int) * (n as int)) <= usize::MAX,
        ;
    }
    let batches = run_batches(mode, &lhs.data, lv.batch, &rhs.data, rv.batch, eff, m, k, n);
    let flat = flatten_batches(&batches, m, n);
    let template = if lv.batch > rv.batch {
        &lhs.shape
    } else {
        &rhs.shape
    };
    let out_shape = assemble_shape(template, m, n);
    proof {
        lemma_dims_product_last_two(out_shape@);
        assert(out_shape@.take(out_shape@.len() - 2) =~= template@.take(template@.len() - 2));
        assert(dims_product(out_shape@.take(out_shape@.len() - 2)) == eff as int);
        assert(dims_positive(out_shape@));
        assert((eff as int) * (m as int) * (n as int) == (eff as int) * ((m as int) * (
        n as int))) by (nonlinear_arith);
    }
    let out = NdArrayTensor { shape: out_shape, data: flat };
    proof {
        assert(out.shape@ == out_shape_spec(*lhs, *rhs));
        assert forall|b: int, i: int, j: int|
            0 <= b < eff && 0 <= i < lhs.rows() && 0 <= j < rhs.cols() implies flat_cell(
            out.data@,
            lhs.rows(),
            rhs.cols(),
            b,
            i,
            j,
        ) as int == batch_entry(
            lhs.data@,
            lhs.batch_size(),
            rhs.data@,
            rhs.batch_size(),
            lhs.rows(),
            lhs.cols(),
            rhs.cols(),
            b,
            i,
            j,
        ) by {
            assert(flat_cell(flat@, m as int, n as int, b, i, j) == batches@[b]@[i * n + j]);
            assert(batches@[b]@[i * n + j] as int == batch_entry(
                lhs.data@,
                lv.batch as int,
                rhs.data@,
                rv.batch as int,
                m as int,
                k as int,
                n as int,
                b,
                i,
                j,
            ));
        }
    }
    Ok(out)
}

/// The batched product of two tensors, dispatched across rayon's worker
/// pool.
pub fn matmul(lhs: &NdArrayTensor, rhs: &NdArrayTensor) -> (r: Result<NdArrayTensor, MatmulError>)
    requires
        lhs.wf(),
        rhs.wf(),
        matmul_valid(*lhs, *rhs) ==> compute_fits(*lhs, *rhs),
    ensures
        matmul_post(*lhs, *rhs, r),
{
    matmul_with_mode(ExecutionMode::Parallel, lhs, rhs)
}

} // verus!
