use vstd::arithmetic::mul::lemma_mul_inequality;
use vstd::prelude::*;

verus! {

/// Largest element magnitude the kernel admits; together with
/// `MAX_INNER_DIM` it keeps every accumulated dot product inside `i64`.
pub const MAX_ELEM: i64 = 1048576;

/// Largest inner dimension the kernel admits.
pub const MAX_INNER_DIM: usize = 1048576;

/// Every element's magnitude is at most `MAX_ELEM`.
pub open spec fn bounded_elems(s: Seq<i64>) -> bool {
    forall|i: int| 0 <= i < s.len() ==> -(MAX_ELEM as int) <= #[trigger] s[i] <= MAX_ELEM as int
}

/// Row `i` of an `m x k` matrix stored row-major at offset `off` in `a`.
pub open spec fn mat_row(a: Seq<i64>, off: int, k: int, i: int) -> Seq<i64> {
    Seq::new(k as nat, |t: int| a[off + i * k + t])
}

/// Column `j` of a `k x n` matrix stored row-major at offset `off` in `b`.
pub open spec fn mat_col(b: Seq<i64>, off: int, n: int, j: int, k: int) -> Seq<i64> {
    Seq::new(k as nat, |t: int| b[off + t * n + j])
}

/// The sum of the first `t` products of paired entries.
pub open spec fn dot_prefix(u: Seq<i64>, v: Seq<i64>, t: int) -> int
    decreases t,
{
    if t <= 0 {
        0
    } else {
        dot_prefix(u, v, t - 1) + (u[t - 1] as int) * (v[t - 1] as int)
    }
}

/// The dot product of two vectors of the length of `u`.
pub open spec fn dot(u: Seq<i64>, v: Seq<i64>) -> int {
    dot_prefix(u, v, u.len() as int)
}

/// Entry `(i, j)` of the dense product of the `m x k` matrix at `a_off` in
/// `a` and the `k x n` matrix at `b_off` in `b`: the dot product of row `i`
/// of the first with column `j` of the second.
pub open spec fn mm_entry(
    a: Seq<i64>,
    a_off: int,
    b: Seq<i64>,
    b_off: int,
    k: int,
    n: int,
    i: int,
    j: int,
) -> int {
    dot(mat_row(a, a_off, k, i), mat_col(b, b_off, n, j, k))
}

proof fn lemma_abs_mul_le(x: int, y: int, b: int)
    by (nonlinear_arith)
    requires
        -b <= x <= b,
        -b <= y <= b,
        b >= 0,
    ensures
        -(b * b) <= x * y <= b * b,
{
}

/// A dense row-major matrix product: multiplies the `m x k` matrix stored at
/// `a_off` in `a` with the `k x n` matrix stored at `b_off` in `b`, returning
/// the `m x n` result as a fresh row-major buffer.
pub fn dense_matmul(
    a: &Vec<i64>,
    a_off: usize,
    b: &Vec<i64>,
    b_off: usize,
    m: usize,
    k: usize,
    n: usize,
) -> (r: Vec<i64>)
    requires
        a_off + m * k <= a@.len(),
        b_off + k * n <= b@.len(),
        m * n <= usize::MAX,
        k <= MAX_INNER_DIM,
        bounded_elems(a@),
        bounded_elems(b@),
    ensures
        r@.len() == m * n,
        forall|i: int, j: int|
            0 <= i < m && 0 <= j < n ==> r@[i * n + j] as int == mm_entry(
                a@,
                a_off as int,
                b@,
                b_off as int,
                k as int,
                n as int,
                i,
                j,
            ),
{
    let mut out: Vec<i64> = Vec::new();
    let mut i: usize = 0;
    while i < m
        invariant
            i <= m,
            out@.len() == i * n,
            a_off + m * k <= a@.len(),
            b_off + k * n <= b@.len(),
            m * n <= usize::MAX,
            k <= MAX_INNER_DIM,
            bounded_elems(a@),
            bounded_elems(b@),
            forall|i2: int, j2: int|
                0 <= i2 < i && 0 <= j2 < n ==> out@[i2 * n + j2] as int == mm_entry(
                    a@,
                    a_off as int,
                    b@,
                    b_off as int,
                    k as int,
                    n as int,
                    i2,
                    j2,
                ),
        decreases m - i,
    {
        let mut j: usize = 0;
        while j < n
            invariant
                i < m,
                j <= n,
                out@.len() == i * n + j,
                a_off + m * k <= a@.len(),
                b_off + k * n <= b@.len(),
                m * n <= usize::MAX,
                k <= MAX_INNER_DIM,
                bounded_elems(a@),
                bounded_elems(b@),
                forall|i2: int, j2: int|
                    0 <= i2 < i && 0 <= j2 < n ==> out@[i2 * n + j2] as int == mm_entry(
                        a@,
                        a_off as int,
                        b@,
                        b_off as int,
                        k as int,
                        n as int,
                        i2,
                        j2,
                    ),
                forall|j2: int|
                    0 <= j2 < j ==> out@[i * n + j2] as int == mm_entry(
                        a@,
                        a_off as int,
                        b@,
                        b_off as int,
                        k as int,
                        n as int,
                        i as int,
                        j2,
                    ),
            decreases n - j,
        {
            let ghost row = mat_row(a@, a_off as int, k as int, i as int);
            let ghost col = mat_col(b@, b_off as int, n as int, j as int, k as int);
            proof {
                lemma_mul_inequality(i as int, m as int - 1, k as int);
                lemma_mul_inequality(i as int + 1, m as int, n as int);
            }
            let mut acc: i64 = 0;
            let mut t: usize = 0;
            while t < k
                invariant
                    t <= k,
                    i < m,
                    j < n,
                    a_off + m * k <= a@.len(),
                    b_off + k * n <= b@.len(),
                    k <= MAX_INNER_DIM,
                    bounded_elems(a@),
                    bounded_elems(b@),
                    row == mat_row(a@, a_off as int, k as int, i as int),
                    col == mat_col(b@, b_off as int, n as int, j as int, k as int),
                    acc as int == dot_prefix(row, col, t as int),
                    -((t as int) * (MAX_ELEM as int) * (MAX_ELEM as int)) <= acc as int <= (
                    t as int) * (MAX_ELEM as int) * (MAX_ELEM as int),
                decreases k - t,
            {
                proof {
                    vstd::std_specs::vec::axiom_spec_len(a);
                    vstd::std_specs::vec::axiom_spec_len(b);
                    assert(i * k + t < m * k) by (nonlinear_arith)
                        requires
                            0 <= i < m,
                            0 <= t < k,
                    ;
                    assert(t * n + j < k * n) by (nonlinear_arith)
                        requires
                            0 <= t < k,
                            0 <= j < n,
                    ;
                }
                let av = a[a_off + i * k + t];
                let bv = b[b_off + t * n + j];
                proof {
                    assert(row[t as int] == av);
                    assert(col[t as int] == bv);
                    lemma_abs_mul_le(av as int, bv as int, MAX_ELEM as int);
                    assert((t as int) * (MAX_ELEM as int) * (MAX_ELEM as int) + (MAX_ELEM as int)
                        * (MAX_ELEM as int) == (t as int + 1) * (MAX_ELEM as int) * (
                    MAX_ELEM as int)) by (nonlinear_arith);
                }
                acc = acc + av * bv;
                t = t + 1;
            }
            proof {
                assert(acc as int == dot(row, col));
            }
            out.push(acc);
            proof {
                assert forall|i2: int, j2: int|
                    0 <= i2 < i && 0 <= j2 < n implies out@[i2 * n + j2] as int == mm_entry(
                    a@,
                    a_off as int,
                    b@,
                    b_off as int,
                    k as int,
                    n as int,
                    i2,
                    j2,
                ) by {
                    lemma_mul_inequality(i2 + 1, i as int, n as int);
                    assert((i2 + 1) * (n as int) == i2 * (n as int) + n as int) by (
                    nonlinear_arith);
                    assert(i2 * n + j2 < i * n + j);
                }
            }
            j = j + 1;
        }
        proof {
            assert((i as int + 1) * (n as int) == (i as int) * (n as int) + n as int) by (
            nonlinear_arith);
        }
        i = i + 1;
    }
    out
}

} // verus!
