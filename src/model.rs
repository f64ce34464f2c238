//! Mathematical model of square row-major matrices over `i64` with
//! two's-complement (wrapping) arithmetic.
use vstd::arithmetic::div_mod::{
    lemma_add_mod_noop, lemma_fundamental_div_mod, lemma_fundamental_div_mod_converse,
};
use vstd::prelude::*;

verus! {

/// The number of distinct `i64` values.
pub open spec fn modulus() -> int {
    0x1_0000_0000_0000_0000
}

/// Reduces a mathematical integer into `i64` the way two's-complement
/// hardware does: the unique `i64` congruent to `x` modulo 2^64.
pub open spec fn wrap(x: int) -> i64 {
    let m = x % modulus();
    if m > i64::MAX {
        (m - modulus()) as i64
    } else {
        m as i64
    }
}

/// `sum_{t < k} a[i][t] * b[t][j]` over the integers, for row-major
/// `n`-by-`n` matrices `a` and `b`.
pub open spec fn dot(a: Seq<i64>, b: Seq<i64>, n: int, i: int, j: int, k: int) -> int
    decreases k,
{
    if k <= 0 {
        0
    } else {
        dot(a, b, n, i, j, k - 1) + a[i * n + (k - 1)] * b[(k - 1) * n + j]
    }
}

/// `sum_{t < k} a[i][t] * bt[j][t]`: the same sum as `dot` when `bt` holds
/// the transpose of the right operand.
pub open spec fn dot_transposed(a: Seq<i64>, bt: Seq<i64>, n: int, i: int, j: int, k: int) -> int
    decreases k,
{
    if k <= 0 {
        0
    } else {
        dot_transposed(a, bt, n, i, j, k - 1) + a[i * n + (k - 1)] * bt[j * n + (k - 1)]
    }
}

/// The transpose of the row-major `n`-by-`n` matrix `m`.
pub open spec fn transpose(m: Seq<i64>, n: int) -> Seq<i64> {
    Seq::new((n * n) as nat, |p: int| m[(p % n) * n + p / n])
}

/// The product `a * b`, each entry reduced into `i64`.
pub open spec fn product(a: Seq<i64>, b: Seq<i64>, n: int) -> Seq<i64> {
    Seq::new((n * n) as nat, |p: int| wrap(dot(a, b, n, p / n, p % n, n)))
}

/// `c + a * b`, each entry reduced into `i64`.
pub open spec fn accumulate(a: Seq<i64>, b: Seq<i64>, c: Seq<i64>, n: int) -> Seq<i64> {
    Seq::new((n * n) as nat, |p: int| wrap(c[p] + dot(a, b, n, p / n, p % n, n)))
}

/// The product `a * b` computed from `bt`, the transpose of `b`.
pub open spec fn product_transposed(a: Seq<i64>, bt: Seq<i64>, n: int) -> Seq<i64> {
    Seq::new((n * n) as nat, |p: int| wrap(dot_transposed(a, bt, n, p / n, p % n, n)))
}

/// `c + a * b` computed from `bt`, the transpose of `b`.
pub open spec fn accumulate_transposed(a: Seq<i64>, bt: Seq<i64>, c: Seq<i64>, n: int) -> Seq<i64> {
    Seq::new((n * n) as nat, |p: int| wrap(c[p] + dot_transposed(a, bt, n, p / n, p % n, n)))
}

/// Row `i` of the product `a * b`.
pub open spec fn product_row(a: Seq<i64>, b: Seq<i64>, n: int, i: int) -> Seq<i64> {
    Seq::new(n as nat, |j: int| wrap(dot(a, b, n, i, j, n)))
}

/// Row `i` of the product `a * b`, computed from `bt`, the transpose of `b`.
pub open spec fn product_row_transposed(a: Seq<i64>, bt: Seq<i64>, n: int, i: int) -> Seq<i64> {
    Seq::new(n as nat, |j: int| wrap(dot_transposed(a, bt, n, i, j, n)))
}

/// The sum of row `i` and column `j` that a kernel reads, by the layout of
/// the right operand.
pub open spec fn dot_in(a: Seq<i64>, b: Seq<i64>, n: int, i: int, j: int, k: int, b_transposed: bool) -> int {
    if b_transposed {
        dot_transposed(a, b, n, i, j, k)
    } else {
        dot(a, b, n, i, j, k)
    }
}

/// Cell `(r, c)` of an `n`-by-`n` matrix sits at `r * n + c`, and that
/// position gives the cell back.
pub proof fn lemma_cell(r: int, c: int, n: int)
    requires
        0 <= r < n,
        0 <= c < n,
    ensures
        0 <= r * n + c < n * n,
        (r * n + c) / n == r,
        (r * n + c) % n == c,
{
    assert(0 <= r * n + c < n * n) by (nonlinear_arith)
        requires
            0 <= r < n,
            0 <= c < n,
    ;
    lemma_fundamental_div_mod_converse(r * n + c, n, r, c);
}

/// Every position below `n * n` is the position of a cell.
pub proof fn lemma_position(p: int, n: int)
    requires
        0 <= n,
        0 <= p < n * n,
    ensures
        0 <= p / n < n,
        0 <= p % n < n,
        p == (p / n) * n + p % n,
{
    assert(n > 0) by (nonlinear_arith)
        requires
            0 <= n,
            0 <= p < n * n,
    ;
    lemma_fundamental_div_mod(p, n);
    assert(p == (p / n) * n + p % n) by (nonlinear_arith)
        requires
            p == n * (p / n) + p % n,
    ;
    let q = p / n;
    let m = p % n;
    assert(0 <= m < n);
    assert(0 <= q < n) by (nonlinear_arith)
        requires
            p == q * n + m,
            0 <= m < n,
            0 <= p < n * n,
    ;
}

/// Two buffers of `n * n` elements that agree on every cell are equal.
pub proof fn lemma_cells_equal(s: Seq<i64>, t: Seq<i64>, n: int)
    requires
        0 <= n,
        s.len() == n * n,
        t.len() == n * n,
        forall|r: int, c: int| 0 <= r < n && 0 <= c < n ==> #[trigger] s[r * n + c] == t[r * n + c],
    ensures
        s == t,
{
    assert forall|p: int| 0 <= p < s.len() implies s[p] == t[p] by {
        lemma_position(p, n);
        let r = p / n;
        let c = p % n;
        assert(s[r * n + c] == t[r * n + c]);
    }
    assert(s =~= t);
}

/// `wrap(x)` is congruent to `x` modulo 2^64.
pub proof fn lemma_wrap_congruent(x: int)
    ensures
        (wrap(x) as int) % modulus() == x % modulus(),
{
    let m = x % modulus();
    assert(0 <= m < modulus());
    if m > i64::MAX {
        lemma_fundamental_div_mod_converse(m - modulus(), modulus(), -1, m);
    } else {
        lemma_fundamental_div_mod_converse(m, modulus(), 0, m);
    }
}

/// Reducing the summands first does not change the reduced sum.
pub proof fn lemma_wrap_add(x: int, y: int)
    ensures
        wrap(wrap(x) + wrap(y)) == wrap(x + y),
{
    lemma_wrap_congruent(x);
    lemma_wrap_congruent(y);
    lemma_add_mod_noop(wrap(x) as int, wrap(y) as int, modulus());
    lemma_add_mod_noop(x, y, modulus());
}

/// An `i64` is its own reduction.
pub proof fn lemma_wrap_small(x: int)
    requires
        i64::MIN <= x <= i64::MAX,
    ensures
        wrap(x) == x,
{
    if x >= 0 {
        lemma_fundamental_div_mod_converse(x, modulus(), 0, x);
    } else {
        lemma_fundamental_div_mod_converse(x, modulus(), -1, x + modulus());
    }
}

/// `i64::wrapping_add` and `i64::wrapping_mul` reduce the exact result.
pub proof fn lemma_wrapping_ops(x: i64, y: i64)
    ensures
        vstd::wrapping::i64_specs::wrapping_add(x, y) == wrap(x + y),
        vstd::wrapping::i64_specs::wrapping_mul(x, y) == wrap(x * y),
{
    let s = x + y;
    if s > i64::MAX {
        lemma_wrap_small(s - modulus());
        lemma_fundamental_div_mod_converse(s, modulus(), 0, s);
    } else if s < i64::MIN {
        lemma_wrap_small(s + modulus());
        lemma_fundamental_div_mod_converse(s + modulus(), modulus(), 0, s + modulus());
        lemma_fundamental_div_mod_converse(s, modulus(), -1, s + modulus());
    } else {
        lemma_wrap_small(s);
    }
}

/// One more term of a running sum that is kept reduced in `i64`.
pub proof fn lemma_step(acc: i64, base: int, x: i64, y: i64)
    requires
        acc == wrap(base),
    ensures
        vstd::wrapping::i64_specs::wrapping_add(acc, vstd::wrapping::i64_specs::wrapping_mul(x, y))
            == wrap(base + x * y),
{
    lemma_wrapping_ops(x, y);
    let p = vstd::wrapping::i64_specs::wrapping_mul(x, y);
    lemma_wrapping_ops(acc, p);
    lemma_wrap_add(base, x * y);
}

} // verus!
