//! The parallel kernels: one task per output row, on rayon's workers.
use crate::kernels::transpose_in_place;
use crate::model::{
    dot_in, lemma_cell, lemma_cells_equal, lemma_step, lemma_wrap_small, product,
    product_row, product_row_transposed, product_transposed, transpose, wrap,
};
use rayon::iter::{IndexedParallelIterator, ParallelIterator};
use rayon::slice::ParallelSliceMut;
use rayon::{ThreadPool, ThreadPoolBuildError, ThreadPoolBuilder};
use vstd::prelude::*;

verus! {

#[verifier::external_type_specification]
#[verifier::external_body]
pub struct ExThreadPool(rayon::ThreadPool);

#[verifier::external_type_specification]
#[verifier::external_body]
pub struct ExThreadPoolBuildError(rayon::ThreadPoolBuildError);

/// Why a kernel with a dedicated pool did not run.
#[derive(Debug, Clone, Copy, PartialEq, Eq, Structural)]
pub enum PoolError {
    /// A pool of zero threads was asked for.
    ZeroThreads,
    /// The pool's threads could not be started.
    BuildFailed,
}

/// The row that a task computes: row `i` of the product, with `b` read in
/// row-major layout or, when `b_transposed` holds, as the transpose of the
/// right operand.
pub open spec fn row_of(a: Seq<i64>, b: Seq<i64>, n: int, i: int, b_transposed: bool) -> Seq<i64> {
    if b_transposed {
        product_row_transposed(a, b, n, i)
    } else {
        product_row(a, b, n, i)
    }
}

/// The work of one task: overwrites `row` with row `i` of the product.
/// Each entry is summed from zero in a local accumulator, over `k` in
/// increasing order, and then stored; what `row` held is not read.
fn fill_row(a: &[i64], b: &[i64], row: &mut [i64], i: usize, n: usize, b_transposed: bool)
    requires
        a@.len() == n * n,
        b@.len() == n * n,
        old(row)@.len() == n,
        i < n,
    ensures
        final(row)@ == row_of(a@, b@, n as int, i as int, b_transposed),
{
    let ghost nn = n as int;
    let len = a.len();
    let mut j: usize = 0;
    while j < n
        invariant
            nn == n,
            len == nn * nn,
            a@.len() == nn * nn,
            b@.len() == nn * nn,
            row@.len() == nn,
            0 <= i < nn,
            0 <= j <= nn,
            forall|c: int|
                0 <= c < j ==> #[trigger] row@[c] == wrap(dot_in(a@, b@, nn, i as int, c, nn, b_transposed)),
        decreases n - j,
    {
        let mut sum: i64 = 0;
        proof {
            lemma_wrap_small(0);
        }
        let mut k: usize = 0;
        while k < n
            invariant
                nn == n,
                len == nn * nn,
                a@.len() == nn * nn,
                b@.len() == nn * nn,
                0 <= i < nn,
                0 <= j < nn,
                0 <= k <= nn,
                sum == wrap(dot_in(a@, b@, nn, i as int, j as int, k as int, b_transposed)),
            decreases n - k,
        {
            proof {
                lemma_cell(i as int, k as int, nn);
                lemma_cell(k as int, j as int, nn);
                lemma_cell(j as int, k as int, nn);
            }
            let a_idx = i * n + k;
            let b_idx = if b_transposed {
                j * n + k
            } else {
                k * n + j
            };
            let x = a[a_idx];
            let y = b[b_idx];
            proof {
                lemma_step(sum, dot_in(a@, b@, nn, i as int, j as int, k as int, b_transposed), x, y);
            }
            sum = sum.wrapping_add(x.wrapping_mul(y));
            k = k + 1;
        }
        row[j] = sum;
        j = j + 1;
    }
    assert(row@ =~= row_of(a@, b@, nn, i as int, b_transposed));
}

/// Relies on rayon's `par_chunks_mut`, `enumerate` and `for_each`: the
/// buffer is cut into its consecutive chunks of `n` elements (`n * n` is a
/// multiple of `n`, so none is shorter), and each chunk is passed, with its
/// index, to exactly one call of `fill_row`, the calls running on the
/// current pool's workers; `for_each` returns once all have finished.
#[verifier::external_body]
fn fill_rows_parallel(a: &[i64], b: &[i64], result: &mut [i64], n: usize, b_transposed: bool)
    requires
        n > 0,
        a@.len() == n * n,
        b@.len() == n * n,
        old(result)@.len() == n * n,
    ensures
        final(result)@.len() == n * n,
        forall|i: int|
            0 <= i < n ==> #[trigger] final(result)@.subrange(i * n, i * n + n) == row_of(
                a@,
                b@,
                n as int,
                i,
                b_transposed,
            ),
{
    result.par_chunks_mut(n).enumerate().for_each(
        |(i, row)| fill_row(a, b, row, i, n, b_transposed),
    );
}

/// Rows that each hold their row of the product make up the product.
proof fn lemma_rows_assemble(s: Seq<i64>, a: Seq<i64>, b: Seq<i64>, n: int, b_transposed: bool)
    requires
        0 <= n,
        s.len() == n * n,
        forall|i: int|
            0 <= i < n ==> #[trigger] s.subrange(i * n, i * n + n) == row_of(a, b, n, i, b_transposed),
    ensures
        s == (if b_transposed {
            product_transposed(a, b, n)
        } else {
            product(a, b, n)
        }),
{
    let target = if b_transposed {
        product_transposed(a, b, n)
    } else {
        product(a, b, n)
    };
    assert forall|r: int, c: int| 0 <= r < n && 0 <= c < n implies #[trigger] s[r * n + c]
        == target[r * n + c] by {
        lemma_cell(r, c, n);
        assert(r * n + n <= n * n) by (nonlinear_arith)
            requires
                0 <= r < n,
        ;
        assert(s.subrange(r * n, r * n + n)[c] == s[r * n + c]);
    }
    lemma_cells_equal(s, target, n);
}

/// Parallel kernel: overwrites `result` with `matrix1 * matrix2`, one task
/// per output row on rayon's global pool. Unlike `gemm`, what `result` held
/// before has no effect on the outcome. With `mat_size == 0` nothing is
/// written.
pub fn gemm_parallel(matrix1: &[i64], matrix2: &[i64], result: &mut [i64], mat_size: usize)
    requires
        matrix1@.len() == mat_size * mat_size,
        matrix2@.len() == mat_size * mat_size,
        old(result)@.len() == mat_size * mat_size,
    ensures
        final(result)@ == product(matrix1@, matrix2@, mat_size as int),
{
    if mat_size == 0 {
        assert(result@ =~= product(matrix1@, matrix2@, 0));
        return ;
    }
    fill_rows_parallel(matrix1, matrix2, result, mat_size, false);
    proof {
        lemma_rows_assemble(result@, matrix1@, matrix2@, mat_size as int, false);
    }
}

/// Parallel-transposing kernel: transposes `matrix2` in place, and only
/// when that has finished overwrites `result` with `matrix1 * matrix2`
/// (the product with the operand as it was passed in), one task per output
/// row, reading both operands row by row. The caller's `matrix2` holds the
/// transpose afterwards.
pub fn gemm_parallel_transpose(
    matrix1: &[i64],
    matrix2: &mut [i64],
    result: &mut [i64],
    mat_size: usize,
)
    requires
        matrix1@.len() == mat_size * mat_size,
        old(matrix2)@.len() == mat_size * mat_size,
        old(result)@.len() == mat_size * mat_size,
    ensures
        final(matrix2)@ == transpose(old(matrix2)@, mat_size as int),
        final(result)@ == product_transposed(matrix1@, final(matrix2)@, mat_size as int),
{
    transpose_in_place(matrix2, mat_size);
    if mat_size == 0 {
        assert(result@ =~= product_transposed(matrix1@, matrix2@, 0));
        return ;
    }
    fill_rows_parallel(matrix1, matrix2, result, mat_size, true);
    proof {
        lemma_rows_assemble(result@, matrix1@, matrix2@, mat_size as int, true);
    }
}

/// Relies on rayon's `ThreadPoolBuilder::new`, `num_threads` and `build`:
/// a new pool configured for `threads` workers, or the builder's error when
/// it cannot be made. Whether it can depends on the machine, so nothing is
/// promised of the outcome.
#[verifier::external_body]
fn build_pool(threads: usize) -> (pool: Result<ThreadPool, ThreadPoolBuildError>)
    requires
        threads > 0,
{
    ThreadPoolBuilder::new().num_threads(threads).build()
}

/// Relies on rayon's `ThreadPool::install`: runs `gemm_parallel` once, to
/// completion, with `pool` as the current pool, and returns when it has.
#[verifier::external_body]
fn install_gemm_parallel(
    pool: &ThreadPool,
    matrix1: &[i64],
    matrix2: &[i64],
    result: &mut [i64],
    mat_size: usize,
)
    requires
        matrix1@.len() == mat_size * mat_size,
        matrix2@.len() == mat_size * mat_size,
        old(result)@.len() == mat_size * mat_size,
    ensures
        final(result)@ == product(matrix1@, matrix2@, mat_size as int),
{
    pool.install(|| gemm_parallel(matrix1, matrix2, result, mat_size))
}

/// Parallel kernel on a dedicated pool of `threads_number` workers, made
/// for this call and released when it returns. Computes what
/// `gemm_parallel` computes: `result` is overwritten with
/// `matrix1 * matrix2`, and since each entry is summed over `k` in order
/// by a single task, the outcome does not depend on the number of workers.
///
/// Fails with `ZeroThreads` when `threads_number` is zero, and with
/// `BuildFailed` when the pool cannot be made; `result` is then untouched.
/// With `mat_size == 0` and at least one thread, nothing is written and
/// the call succeeds.
pub fn gemm_parallel_with_threads(
    matrix1: &[i64],
    matrix2: &[i64],
    result: &mut [i64],
    mat_size: usize,
    threads_number: usize,
) -> (outcome: Result<(), PoolError>)
    requires
        matrix1@.len() == mat_size * mat_size,
        matrix2@.len() == mat_size * mat_size,
        old(result)@.len() == mat_size * mat_size,
    ensures
        (threads_number == 0) <==> (outcome == Err::<(), PoolError>(PoolError::ZeroThreads)),
        outcome == Err::<(), PoolError>(PoolError::BuildFailed) ==> mat_size > 0,
        threads_number > 0 && mat_size == 0 ==> outcome is Ok,
        outcome is Ok ==> final(result)@ == product(matrix1@, matrix2@, mat_size as int),
        outcome is Err ==> final(result)@ == old(result)@,
{
    if threads_number == 0 {
        return Err(PoolError::ZeroThreads);
    }
    if mat_size == 0 {
        assert(result@ =~= product(matrix1@, matrix2@, 0));
        return Ok(());
    }
    match build_pool(threads_number) {
        Ok(pool) => {
            install_gemm_parallel(&pool, matrix1, matrix2, result, mat_size);
            Ok(())
        },
        Err(_) => Err(PoolError::BuildFailed),
    }
}

} // verus!
