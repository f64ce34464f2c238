use matrix_criterion::{
    gemm, gemm_parallel, gemm_parallel_transpose, gemm_parallel_with_threads, gemm_transpose,
    transpose_in_place, PoolError,
};

fn sample(n: usize, seed: i64) -> Vec<i64> {
    (0..n * n).map(|p| (p as i64 * 7 + seed) % 11 - 5).collect()
}

fn naive_from_zero(a: &[i64], b: &[i64], n: usize) -> Vec<i64> {
    let mut r = vec![0; n * n];
    gemm(a, b, &mut r, n);
    r
}

#[test]
fn naive_two_by_two() {
    let a = [1, 2, 3, 4];
    let b = [5, 6, 7, 8];
    let mut r = [0, 0, 0, 0];
    gemm(&a, &b, &mut r, 2);
    assert_eq!(r, [19, 22, 43, 50]);
}

#[test]
fn naive_three_by_three() {
    let a = [1, 2, 3, 4, 5, 6, 7, 8, 9];
    let b = [9, 8, 7, 6, 5, 4, 3, 2, 1];
    let mut r = [0; 9];
    gemm(&a, &b, &mut r, 3);
    assert_eq!(r, [30, 24, 18, 84, 69, 54, 138, 114, 90]);
}

#[test]
fn naive_identity_up_to_eight() {
    for n in 1..=8usize {
        let a = sample(n, 3);
        let mut id = vec![0; n * n];
        for i in 0..n {
            id[i * n + i] = 1;
        }
        assert_eq!(naive_from_zero(&a, &id, n), a);
        assert_eq!(naive_from_zero(&id, &a, n), a);
    }
}

#[test]
fn naive_matches_textbook_product() {
    for n in 0..=8usize {
        let a = sample(n, 1);
        let b = sample(n, 4);
        let mut expected = vec![0i64; n * n];
        for i in 0..n {
            for j in 0..n {
                let mut s = 0i64;
                for k in 0..n {
                    s += a[i * n + k] * b[k * n + j];
                }
                expected[i * n + j] = s;
            }
        }
        assert_eq!(naive_from_zero(&a, &b, n), expected);
    }
}

#[test]
fn naive_accumulates_into_result() {
    let a = [1, 2, 3, 4];
    let b = [5, 6, 7, 8];
    let mut r = [100, 200, 300, 400];
    gemm(&a, &b, &mut r, 2);
    assert_eq!(r, [119, 222, 343, 450]);
}

#[test]
fn naive_twice_doubles() {
    for n in 1..=6usize {
        let a = sample(n, 2);
        let b = sample(n, 9);
        let once = naive_from_zero(&a, &b, n);
        let mut r = vec![0; n * n];
        gemm(&a, &b, &mut r, n);
        gemm(&a, &b, &mut r, n);
        let doubled: Vec<i64> = once.iter().map(|x| 2 * x).collect();
        assert_eq!(r, doubled);
    }
}

#[test]
fn naive_wraps_on_overflow() {
    let a = [i64::MAX];
    let b = [2];
    let mut r = [5];
    gemm(&a, &b, &mut r, 1);
    assert_eq!(r, [i64::MAX.wrapping_mul(2).wrapping_add(5)]);
    assert_eq!(r, [3]);
}

#[test]
fn transpose_swaps_every_pair() {
    let mut m = [1, 2, 3, 4, 5, 6, 7, 8, 9];
    transpose_in_place(&mut m, 3);
    assert_eq!(m, [1, 4, 7, 2, 5, 8, 3, 6, 9]);
    let mut m2 = [1, 2, 3, 4];
    transpose_in_place(&mut m2, 2);
    assert_eq!(m2, [1, 3, 2, 4]);
}

#[test]
fn transposing_kernel_matches_naive() {
    for n in 0..=8usize {
        let a = sample(n, 5);
        let b = sample(n, 6);
        let expected = naive_from_zero(&a, &b, n);
        let mut b2 = b.clone();
        let mut r = vec![0; n * n];
        let out = gemm_transpose(&a, &mut b2, &mut r, n);
        assert_eq!(out.to_vec(), expected);
        assert_eq!(r, expected);
        let mut bt = b.clone();
        transpose_in_place(&mut bt, n);
        assert_eq!(b2, bt);
    }
}

#[test]
fn transposing_kernel_two_by_two() {
    let a = [1, 2, 3, 4];
    let mut b = [5, 6, 7, 8];
    let mut r = [1, 1, 1, 1];
    gemm_transpose(&a, &mut b, &mut r, 2);
    assert_eq!(r, [20, 23, 44, 51]);
    assert_eq!(b, [5, 7, 6, 8]);
}

#[test]
fn parallel_overwrites_and_matches_naive() {
    for n in 1..=8usize {
        let a = sample(n, 7);
        let b = sample(n, 8);
        let expected = naive_from_zero(&a, &b, n);
        let mut r = vec![1234; n * n];
        gemm_parallel(&a, &b, &mut r, n);
        assert_eq!(r, expected);
    }
}

#[test]
fn parallel_two_by_two() {
    let a = [1, 2, 3, 4];
    let b = [5, 6, 7, 8];
    let mut r = [9, 9, 9, 9];
    gemm_parallel(&a, &b, &mut r, 2);
    assert_eq!(r, [19, 22, 43, 50]);
}

#[test]
fn parallel_transpose_matches_naive() {
    for n in 1..=8usize {
        let a = sample(n, 2);
        let b = sample(n, 3);
        let expected = naive_from_zero(&a, &b, n);
        let mut b2 = b.clone();
        let mut r = vec![-7; n * n];
        gemm_parallel_transpose(&a, &mut b2, &mut r, n);
        assert_eq!(r, expected);
        let mut bt = b.clone();
        transpose_in_place(&mut bt, n);
        assert_eq!(b2, bt);
    }
}

#[test]
fn explicit_pool_same_for_every_thread_count() {
    let n = 7usize;
    let a = sample(n, 4);
    let b = sample(n, 10);
    let expected = naive_from_zero(&a, &b, n);
    for threads in [1usize, 2, 4, n] {
        let mut r = vec![55; n * n];
        assert_eq!(gemm_parallel_with_threads(&a, &b, &mut r, n, threads), Ok(()));
        assert_eq!(r, expected);
    }
}

#[test]
fn explicit_pool_zero_threads_fails() {
    let a = [1, 2, 3, 4];
    let b = [5, 6, 7, 8];
    let mut r = [0, 0, 0, 0];
    assert_eq!(
        gemm_parallel_with_threads(&a, &b, &mut r, 2, 0),
        Err(PoolError::ZeroThreads)
    );
    assert_eq!(r, [0, 0, 0, 0]);
}

#[test]
fn empty_matrices_are_left_alone() {
    let a: [i64; 0] = [];
    let mut b: [i64; 0] = [];
    let mut r: [i64; 0] = [];
    gemm(&a, &b, &mut r, 0);
    gemm_transpose(&a, &mut b, &mut r, 0);
    gemm_parallel(&a, &b, &mut r, 0);
    gemm_parallel_transpose(&a, &mut b, &mut r, 0);
    assert_eq!(gemm_parallel_with_threads(&a, &b, &mut r, 0, 3), Ok(()));
    transpose_in_place(&mut b, 0);
    assert!(r.is_empty());
}

#[test]
fn single_cell_matrices() {
    let a = [6];
    let mut b = [7];
    let mut r = [10];
    gemm(&a, &b, &mut r, 1);
    assert_eq!(r, [52]);
    gemm_transpose(&a, &mut b, &mut r, 1);
    assert_eq!(r, [94]);
    assert_eq!(b, [7]);
    gemm_parallel(&a, &b, &mut r, 1);
    assert_eq!(r, [42]);
    let mut r2 = [10];
    gemm_parallel_transpose(&a, &mut b, &mut r2, 1);
    assert_eq!(r2, [42]);
    let mut r3 = [10];
    assert_eq!(gemm_parallel_with_threads(&a, &b, &mut r3, 1, 1), Ok(()));
    assert_eq!(r3, [42]);
}
