//! Laws that relate the kernels to one another, stated over the model that
//! their contracts use.
use crate::model::{
    accumulate, accumulate_transposed, dot, dot_transposed, lemma_cell, lemma_position,
    lemma_wrap_add, lemma_wrap_small, product, product_transposed, transpose, wrap,
};
use vstd::prelude::*;

verus! {

/// A buffer of `len` zeros.
pub open spec fn zeros(len: nat) -> Seq<i64> {
    Seq::new(len, |p: int| 0i64)
}

/// Reading the transpose of `b` row by row gives the same sums as reading
/// `b` column by column.
proof fn lemma_dot_transposed(a: Seq<i64>, b: Seq<i64>, n: int, i: int, j: int, k: int)
    requires
        0 <= j < n,
        0 <= k <= n,
        b.len() == n * n,
    ensures
        dot_transposed(a, transpose(b, n), n, i, j, k) == dot(a, b, n, i, j, k),
    decreases k,
{
    if k > 0 {
        lemma_dot_transposed(a, b, n, i, j, k - 1);
        lemma_cell(j, k - 1, n);
    }
}

/// The transposing kernels compute what the naive ones do: with the right
/// operand transposed first, accumulating into any buffer, or computing the
/// bare product, gives the same matrix as on the operand untransposed.
pub proof fn transpose_equivalence(a: Seq<i64>, b: Seq<i64>, c: Seq<i64>, n: nat)
    requires
        a.len() == n * n,
        b.len() == n * n,
        c.len() == n * n,
    ensures
        accumulate_transposed(a, transpose(b, n as int), c, n as int) == accumulate(a, b, c, n as int),
        product_transposed(a, transpose(b, n as int), n as int) == product(a, b, n as int),
{
    let nn = n as int;
    let bt = transpose(b, nn);
    let lhs = accumulate_transposed(a, bt, c, nn);
    let rhs = accumulate(a, b, c, nn);
    let plhs = product_transposed(a, bt, nn);
    let prhs = product(a, b, nn);
    assert forall|p: int| 0 <= p < nn * nn implies #[trigger] lhs[p] == rhs[p] by {
        lemma_position(p, nn);
        lemma_dot_transposed(a, b, nn, p / nn, p % nn, nn);
    }
    assert forall|p: int| 0 <= p < nn * nn implies #[trigger] plhs[p] == prhs[p] by {
        lemma_position(p, nn);
        lemma_dot_transposed(a, b, nn, p / nn, p % nn, nn);
    }
    assert(lhs =~= rhs);
    assert(plhs =~= prhs);
}

/// The overwriting kernels and the accumulating ones agree on a zeroed
/// buffer: adding the product into zeros gives the product, whether the
/// right operand is read as is or as its transpose.
pub proof fn overwrite_matches_accumulate_from_zero(a: Seq<i64>, b: Seq<i64>, n: nat)
    requires
        a.len() == n * n,
        b.len() == n * n,
    ensures
        product(a, b, n as int) == accumulate(a, b, zeros(n * n), n as int),
        product_transposed(a, b, n as int) == accumulate_transposed(a, b, zeros(n * n), n as int),
{
    let nn = n as int;
    assert(product(a, b, nn) =~= accumulate(a, b, zeros(n * n), nn));
    assert(product_transposed(a, b, nn) =~= accumulate_transposed(a, b, zeros(n * n), nn));
}

/// Accumulation is not reset: adding the product twice into a zeroed
/// buffer leaves, in each cell, twice what a single pass left there
/// (with wrapping `i64` arithmetic).
pub proof fn accumulate_twice_doubles(a: Seq<i64>, b: Seq<i64>, n: nat)
    requires
        a.len() == n * n,
        b.len() == n * n,
    ensures
        ({
            let once = accumulate(a, b, zeros(n * n), n as int);
            accumulate(a, b, once, n as int) == Seq::new(n * n, |p: int| wrap(2 * once[p]))
        }),
{
    let nn = n as int;
    let once = accumulate(a, b, zeros(n * n), nn);
    let twice = accumulate(a, b, once, nn);
    assert forall|p: int| 0 <= p < nn * nn implies twice[p] == wrap(2 * once[p]) by {
        let d = dot(a, b, nn, p / nn, p % nn, nn);
        assert(once[p] == wrap(d));
        lemma_wrap_small(wrap(d) as int);
        lemma_wrap_add(wrap(d) as int, d);
        lemma_wrap_add(d, d);
        assert(2 * once[p] == wrap(d) + wrap(d));
    }
    assert(twice =~= Seq::new(n * n, |p: int| wrap(2 * once[p])));
}

/// With `n == 0` every buffer is empty, and no kernel changes it.
pub proof fn empty_matrices_unchanged(a: Seq<i64>, b: Seq<i64>, c: Seq<i64>)
    requires
        a.len() == 0,
        b.len() == 0,
        c.len() == 0,
    ensures
        accumulate(a, b, c, 0) == c,
        accumulate_transposed(a, b, c, 0) == c,
        product(a, b, 0) == c,
        product_transposed(a, b, 0) == c,
        transpose(b, 0) == b,
{
    assert(accumulate(a, b, c, 0) =~= c);
    assert(accumulate_transposed(a, b, c, 0) =~= c);
    assert(product(a, b, 0) =~= c);
    assert(product_transposed(a, b, 0) =~= c);
    assert(transpose(b, 0) =~= b);
}

/// With `n == 1` the product is the product of the two scalars, added to
/// the old value by the accumulating kernels; transposing changes nothing.
pub proof fn single_cell(a: Seq<i64>, b: Seq<i64>, c: Seq<i64>)
    requires
        a.len() == 1,
        b.len() == 1,
        c.len() == 1,
    ensures
        accumulate(a, b, c, 1) == seq![wrap(c[0] + a[0] * b[0])],
        accumulate_transposed(a, b, c, 1) == seq![wrap(c[0] + a[0] * b[0])],
        product(a, b, 1) == seq![wrap(a[0] * b[0])],
        product_transposed(a, b, 1) == seq![wrap(a[0] * b[0])],
        transpose(b, 1) == b,
{
    reveal_with_fuel(dot, 2);
    reveal_with_fuel(dot_transposed, 2);
    assert(dot(a, b, 1, 0, 0, 1) == a[0] * b[0]);
    assert(dot_transposed(a, b, 1, 0, 0, 1) == a[0] * b[0]);
    assert(accumulate(a, b, c, 1) =~= seq![wrap(c[0] + a[0] * b[0])]);
    assert(accumulate_transposed(a, b, c, 1) =~= seq![wrap(c[0] + a[0] * b[0])]);
    assert(product(a, b, 1) =~= seq![wrap(a[0] * b[0])]);
    assert(product_transposed(a, b, 1) =~= seq![wrap(a[0] * b[0])]);
    assert(transpose(b, 1) =~= b);
}

} // verus!
