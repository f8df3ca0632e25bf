use crate::batch::{batches_post, batches_pre, compute_batch};
use vstd::prelude::*;

verus! {

/// The execution strategy for the batched product, chosen by the caller
/// instead of a build-time switch: fan the batch indices out across rayon's
/// worker pool, or run them one after another on the calling thread.
#[derive(Clone, Copy, Debug, PartialEq, Eq, Structural)]
pub enum ExecutionMode {
    Parallel,
    Sequential,
}

/// The sequential stand-in for a parallel iterator: marking a collection for
/// parallel consumption hands it back unchanged.
pub trait IntoParallelIterator: Sized {
    fn into_par_iter(self) -> (r: Self)
        ensures
            r == self,
    ;
}

impl IntoParallelIterator for Vec<usize> {
    fn into_par_iter(self) -> (r: Self) {
        self
    }
}

/// Relies on rayon's parallel range iterator: `map` applies the closure to
/// every index in `0..batch` exactly once, and `collect` gathers the
/// closure's results in index order, so the collected vector holds exactly
/// the per-batch outputs of `compute_batch`.
#[verifier::external_body]
fn par_map_batches(
    lhs: &Vec<i64>,
    lhs_batch: usize,
    rhs: &Vec<i64>,
    rhs_batch: usize,
    batch: usize,
    m: usize,
    k: usize,
    n: usize,
) -> (r: Vec<Vec<i64>>)
    requires
        batches_pre(
            lhs@,
            lhs_batch as int,
            rhs@,
            rhs_batch as int,
            batch as int,
            m as int,
            k as int,
            n as int,
        ),
    ensures
        batches_post(
            r@,
            lhs@,
            lhs_batch as int,
            rhs@,
            rhs_batch as int,
            batch as int,
            m as int,
            k as int,
            n as int,
        ),
{
    let indices = rayon::iter::IntoParallelIterator::into_par_iter(0..batch);
    rayon::iter::ParallelIterator::collect(rayon::iter::ParallelIterator::map(indices, |b| {
        compute_batch(lhs, lhs_batch, rhs, rhs_batch, batch, m, k, n, b)
    }))
}

/// Runs the batches one after another on the calling thread; the results are
/// identical to the parallel strategy's, as both contracts pin every entry.
fn seq_map_batches(
    lhs: &Vec<i64>,
    lhs_batch: usize,
    rhs: &Vec<i64>,
    rhs_batch: usize,
    batch: usize,
    m: usize,
    k: usize,
    n: usize,
) -> (r: Vec<Vec<i64>>)
    requires
        batches_pre(
            lhs@,
            lhs_batch as int,
            rhs@,
            rhs_batch as int,
            batch as int,
            m as int,
            k as int,
            n as int,
        ),
    ensures
        batches_post(
            r@,
            lhs@,
            lhs_batch as int,
            rhs@,
            rhs_batch as int,
            batch as int,
            m as int,
            k as int,
            n as int,
        ),
{
    let mut out: Vec<Vec<i64>> = Vec::new();
    let mut bi: usize = 0;
    while bi < batch
        invariant
            bi <= batch,
            out@.len() == bi,
            batches_pre(
                lhs@,
                lhs_batch as int,
                rhs@,
                rhs_batch as int,
                batch as int,
                m as int,
                k as int,
                n as int,
            ),
            forall|b: int| 0 <= b < bi ==> (#[trigger] out@[b])@.len() == m * n,
            forall|b: int, i: int, j: int|
                0 <= b < bi && 0 <= i < m && 0 <= j < n ==> out@[b]@[i * n + j] as int
                    == crate::batch::batch_entry(
                    lhs@,
                    lhs_batch as int,
                    rhs@,
                    rhs_batch as int,
                    m as int,
                    k as int,
                    n as int,
                    b,
                    i,
                    j,
                ),
        decreases batch - bi,
    {
        let v = compute_batch(lhs, lhs_batch, rhs, rhs_batch, batch, m, k, n, bi);
        out.push(v);
        bi = bi + 1;
    }
    out
}

/// Maps every batch index to its output, with the given execution strategy.
pub fn run_batches(
    mode: ExecutionMode,
    lhs: &Vec<i64>,
    lhs_batch: usize,
    rhs: &Vec<i64>,
    rhs_batch: usize,
    batch: usize,
    m: usize,
    k: usize,
    n: usize,
) -> (r: Vec<Vec<i64>>)
    requires
        batches_pre(
            lhs@,
            lhs_batch as int,
            rhs@,
            rhs_batch as int,
            batch as int,
            m as int,
            k as int,
            n as int,
        ),
    ensures
        batches_post(
            r@,
            lhs@,
            lhs_batch as int,
            rhs@,
            rhs_batch as int,
            batch as int,
            m as int,
            k as int,
            n as int,
        ),
{
    match mode {
        ExecutionMode::Parallel => par_map_batches(lhs, lhs_batch, rhs, rhs_batch, batch, m, k, n),
        ExecutionMode::Sequential => seq_map_batches(
            lhs,
            lhs_batch,
            rhs,
            rhs_batch,
            batch,
            m,
            k,
            n,
        ),
    }
}

} // verus!
