//! The sequential kernels and the in-place transpose.
use crate::model::{
    accumulate, accumulate_transposed, dot_in, lemma_cell, lemma_cells_equal, lemma_step,
    lemma_wrap_small, transpose, wrap,
};
use vstd::prelude::*;

verus! {

/// Transposes the row-major `n`-by-`n` matrix `m` in place: every cell
/// `(i, j)` above the diagonal trades places with `(j, i)`; the diagonal
/// stays where it is.
pub fn transpose_in_place(m: &mut [i64], n: usize)
    requires
        old(m)@.len() == n * n,
    ensures
        final(m)@ == transpose(old(m)@, n as int),
{
    let ghost nn = n as int;
    let ghost m0 = m@;
    let len = m.len();
    assert(len == nn * nn);
    let mut i: usize = 0;
    while i < n
        invariant
            nn == n,
            m0 == old(m)@,
            0 <= i <= nn,
            m@.len() == nn * nn,
            len == nn * nn,
            forall|r: int, c: int|
                0 <= r < nn && 0 <= c < nn ==> #[trigger] m@[r * nn + c] == (if r < i || c < i {
                    m0[c * nn + r]
                } else {
                    m0[r * nn + c]
                }),
        decreases n - i,
    {
        let mut j: usize = i + 1;
        while j < n
            invariant
                nn == n,
                m0 == old(m)@,
                0 <= i < nn,
                i + 1 <= j <= nn,
                m@.len() == nn * nn,
                len == nn * nn,
                forall|r: int, c: int|
                    0 <= r < nn && 0 <= c < nn ==> #[trigger] m@[r * nn + c] == (if r < i || c < i
                        || (r == i && i < c < j) || (c == i && i < r < j) {
                        m0[c * nn + r]
                    } else {
                        m0[r * nn + c]
                    }),
            decreases n - j,
        {
            proof {
                lemma_cell(i as int, j as int, nn);
                lemma_cell(j as int, i as int, nn);
            }
            let upper = i * n + j;
            let lower = j * n + i;
            let ghost before = m@;
            assert(m@[i as int * nn + j as int] == m0[i as int * nn + j as int]);
            assert(m@[j as int * nn + i as int] == m0[j as int * nn + i as int]);
            let x = m[upper];
            let y = m[lower];
            m[upper] = y;
            m[lower] = x;
            proof {
                let ui = i as int * nn + j as int;
                let li = j as int * nn + i as int;
                assert(m@ =~= before.update(ui, y).update(li, x));
                assert forall|r: int, c: int| 0 <= r < nn && 0 <= c < nn implies #[trigger] m@[r
                    * nn + c] == (if r < i || c < i || (r == i && i < c < j + 1) || (c == i && i < r
                    < j + 1) {
                    m0[c * nn + r]
                } else {
                    m0[r * nn + c]
                }) by {
                    lemma_cell(r, c, nn);
                    if r * nn + c != ui && r * nn + c != li {
                        assert(m@[r * nn + c] == before[r * nn + c]);
                    }
                }
            }
            j = j + 1;
        }
        proof {
            assert forall|r: int, c: int| 0 <= r < nn && 0 <= c < nn implies #[trigger] m@[r * nn
                + c] == (if r < i + 1 || c < i + 1 {
                m0[c * nn + r]
            } else {
                m0[r * nn + c]
            }) by {}
        }
        i = i + 1;
    }
    proof {
        let t = transpose(m0, nn);
        assert forall|r: int, c: int| 0 <= r < nn && 0 <= c < nn implies #[trigger] m@[r * nn + c]
            == t[r * nn + c] by {
            lemma_cell(r, c, nn);
        }
        lemma_cells_equal(m@, t, nn);
    }
}

/// Adds `a * b` into `result`, cell by cell, with `b` read in row-major
/// layout or, when `b_transposed` holds, as the transpose of the right
/// operand. The sum for each cell runs over `k` in increasing order.
fn accumulate_into(a: &[i64], b: &[i64], result: &mut [i64], n: usize, b_transposed: bool)
    requires
        a@.len() == n * n,
        b@.len() == n * n,
        old(result)@.len() == n * n,
    ensures
        final(result)@ == (if b_transposed {
            accumulate_transposed(a@, b@, old(result)@, n as int)
        } else {
            accumulate(a@, b@, old(result)@, n as int)
        }),
{
    let ghost nn = n as int;
    let ghost c0 = result@;
    let len = result.len();
    assert(len == nn * nn);
    let mut i: usize = 0;
    while i < n
        invariant
            nn == n,
            c0 == old(result)@,
            a@.len() == nn * nn,
            b@.len() == nn * nn,
            result@.len() == nn * nn,
            len == nn * nn,
            0 <= i <= nn,
            forall|r: int, c: int|
                0 <= r < nn && 0 <= c < nn ==> #[trigger] result@[r * nn + c] == (if r < i {
                    wrap(c0[r * nn + c] + dot_in(a@, b@, nn, r, c, nn, b_transposed))
                } else {
                    c0[r * nn + c]
                }),
        decreases n - i,
    {
        let mut j: usize = 0;
        while j < n
            invariant
                nn == n,
                c0 == old(result)@,
                a@.len() == nn * nn,
                b@.len() == nn * nn,
                result@.len() == nn * nn,
                len == nn * nn,
                0 <= i < nn,
                0 <= j <= nn,
                forall|r: int, c: int|
                    0 <= r < nn && 0 <= c < nn ==> #[trigger] result@[r * nn + c] == (if r < i || (r
                        == i && c < j) {
                        wrap(c0[r * nn + c] + dot_in(a@, b@, nn, r, c, nn, b_transposed))
                    } else {
                        c0[r * nn + c]
                    }),
            decreases n - j,
        {
            proof {
                lemma_cell(i as int, j as int, nn);
            }
            let c_idx = i * n + j;
            assert(result@[c_idx as int] == c0[c_idx as int]);
            proof {
                lemma_wrap_small(c0[c_idx as int] as int);
            }
            let mut k: usize = 0;
            while k < n
                invariant
                    nn == n,
                    c0 == old(result)@,
                    a@.len() == nn * nn,
                    b@.len() == nn * nn,
                    result@.len() == nn * nn,
                    len == nn * nn,
                    0 <= i < nn,
                    0 <= j < nn,
                    0 <= k <= nn,
                    c_idx == i * nn + j,
                    0 <= c_idx < nn * nn,
                    forall|r: int, c: int|
                        0 <= r < nn && 0 <= c < nn && (r != i || c != j) ==> #[trigger] result@[r
                            * nn + c] == (if r < i || (r == i && c < j) {
                            wrap(c0[r * nn + c] + dot_in(a@, b@, nn, r, c, nn, b_transposed))
                        } else {
                            c0[r * nn + c]
                        }),
                    result@[c_idx as int] == wrap(
                        c0[c_idx as int] + dot_in(a@, b@, nn, i as int, j as int, k as int, b_transposed),
                    ),
                decreases n - k,
            {
                proof {
                    lemma_cell(i as int, k as int, nn);
                    lemma_cell(k as int, j as int, nn);
                    lemma_cell(j as int, k as int, nn);
                }
                let a_idx = i * n + k;
                let b_idx = if b_transposed {
                    j * n + k
                } else {
                    k * n + j
                };
                let x = a[a_idx];
                let y = b[b_idx];
                let acc = result[c_idx];
                proof {
                    lemma_step(
                        acc,
                        c0[c_idx as int] + dot_in(a@, b@, nn, i as int, j as int, k as int, b_transposed),
                        x,
                        y,
                    );
                }
                let ghost before = result@;
                result[c_idx] = acc.wrapping_add(x.wrapping_mul(y));
                proof {
                    assert forall|r: int, c: int|
                        0 <= r < nn && 0 <= c < nn && (r != i || c != j) implies #[trigger] result@[r
                            * nn + c] == before[r * nn + c] by {
                        lemma_cell(r, c, nn);
                        lemma_cell(i as int, j as int, nn);
                    }
                }
                k = k + 1;
            }
            proof {
                assert forall|r: int, c: int| 0 <= r < nn && 0 <= c < nn implies #[trigger] result@[r
                    * nn + c] == (if r < i || (r == i && c < j + 1) {
                    wrap(c0[r * nn + c] + dot_in(a@, b@, nn, r, c, nn, b_transposed))
                } else {
                    c0[r * nn + c]
                }) by {
                    lemma_cell(r, c, nn);
                }
            }
            j = j + 1;
        }
        i = i + 1;
    }
    proof {
        let target = if b_transposed {
            accumulate_transposed(a@, b@, c0, nn)
        } else {
            accumulate(a@, b@, c0, nn)
        };
        assert forall|r: int, c: int| 0 <= r < nn && 0 <= c < nn implies #[trigger] result@[r * nn
            + c] == target[r * nn + c] by {
            lemma_cell(r, c, nn);
        }
        lemma_cells_equal(result@, target, nn);
    }
}

/// Naive kernel: adds `a * b` into `result`, for row-major `n`-by-`n`
/// matrices. The result buffer is not cleared first: every cell receives
/// its sum on top of what it held, so a fresh product needs a zeroed buffer.
/// Entries are computed with wrapping `i64` arithmetic.
pub fn gemm(matrix1: &[i64], matrix2: &[i64], result: &mut [i64], mat_size: usize)
    requires
        matrix1@.len() == mat_size * mat_size,
        matrix2@.len() == mat_size * mat_size,
        old(result)@.len() == mat_size * mat_size,
    ensures
        final(result)@ == accumulate(matrix1@, matrix2@, old(result)@, mat_size as int),
{
    accumulate_into(matrix1, matrix2, result, mat_size, false);
}

/// Transposing kernel: transposes `matrix2` in place, then adds
/// `matrix1 * matrix2` (the product with the operand as it was passed in)
/// into `result`, reading both operands row by row. The caller's
/// `matrix2` holds the transpose afterwards. As with `gemm`, `result` is
/// not cleared first. Returns the result buffer.
pub fn gemm_transpose<'a>(
    matrix1: &'a [i64],
    matrix2: &'a mut [i64],
    result: &'a mut [i64],
    mat_size: usize,
) -> (out: &'a mut [i64])
    requires
        matrix1@.len() == mat_size * mat_size,
        old(matrix2)@.len() == mat_size * mat_size,
        old(result)@.len() == mat_size * mat_size,
    ensures
        final(matrix2)@ == transpose(old(matrix2)@, mat_size as int),
        out@ == accumulate_transposed(
            matrix1@,
            final(matrix2)@,
            old(result)@,
            mat_size as int,
        ),
        final(result)@ == final(out)@,
{
    transpose_in_place(matrix2, mat_size);
    accumulate_into(matrix1, matrix2, result, mat_size, true);
    result
}

} // verus!
