//! Special functions on integers.
use vstd::prelude::*;
use crate::numerics::special::factorial::factorial_of;

pub mod factorial;
pub mod spherical_harmonics;

verus! {

/// The binomial coefficient `C(n, k)`, by Pascal's rule.
pub open spec fn binomial(n: nat, k: nat) -> nat
    decreases n,
{
    if k == 0 {
        1
    } else if n == 0 {
        0
    } else {
        binomial((n - 1) as nat, (k - 1) as nat) + binomial((n - 1) as nat, k)
    }
}

/// `C(n, k) = 0` for `k > n`, and `C(n, n) = 1`.
pub proof fn lemma_binomial_edges(n: nat, k: nat)
    ensures
        k > n ==> binomial(n, k) == 0,
        binomial(n, n) == 1,
    decreases n,
{
    if n > 0 {
        lemma_binomial_edges((n - 1) as nat, (k - 1) as nat);
        lemma_binomial_edges((n - 1) as nat, k);
        lemma_binomial_edges((n - 1) as nat, n);
    }
}

/// Absorption: `(k + 1) * C(n + 1, k + 1) = (n + 1) * C(n, k)`.
pub proof fn lemma_binomial_absorption(n: nat, k: nat)
    ensures
        (k + 1) * binomial(n + 1, k + 1) == (n + 1) * binomial(n, k),
    decreases n,
{
    if n == 0 {
        lemma_binomial_edges(0, k);
        lemma_binomial_edges(0, k + 1);
        assert(binomial(1, k + 1) == binomial(0, k) + binomial(0, k + 1));
        assert(binomial(0, k + 1) == 0);
        assert((k + 1) * binomial(1, k + 1) == (n + 1) * binomial(n, k)) by (nonlinear_arith)
            requires
                binomial(1, k + 1) == binomial(0, k),
                k == 0 ==> binomial(0, k) == 1,
                k > 0 ==> binomial(0, k) == 0,
                n == 0,
        ;
    } else {
        let p = (n - 1) as nat;
        // C(n + 1, k + 1) = C(n, k) + C(n, k + 1)
        lemma_binomial_absorption(p, k);
        // (k + 1) C(n, k + 1) = n C(n - 1, k)
        let c_nk = binomial(n, k);
        let c_nk1 = binomial(n, k + 1);
        let c_pk = binomial(p, k);
        if k == 0 {
            assert(c_nk == 1);
            assert(binomial(n + 1, 1) == c_nk + c_nk1);
            lemma_binomial_n_choose_1(n);
        } else {
            let q = (k - 1) as nat;
            lemma_binomial_absorption(p, q);
            // k C(n, k) = n C(n - 1, k - 1)
            let c_pq = binomial(p, q);
            assert(c_nk == c_pq + c_pk);
            assert(binomial(n + 1, k + 1) == c_nk + c_nk1);
            assert((k + 1) * (c_nk + c_nk1) == (n + 1) * c_nk) by (nonlinear_arith)
                requires
                    (k + 1) * c_nk1 == n * c_pk,
                    k * c_nk == n * c_pq,
                    c_nk == c_pq + c_pk,
            ;
        }
    }
}

proof fn lemma_binomial_n_choose_1(n: nat)
    ensures
        binomial(n, 1) == n,
        binomial(n + 1, 1) == n + 1,
    decreases n,
{
    if n > 0 {
        lemma_binomial_n_choose_1((n - 1) as nat);
    }
    lemma_binomial_edges(n, 0);
    assert(binomial(n + 1, 1) == binomial(n, 0) + binomial(n, 1));
}

/// `C(m, j) <= C(m + 1, j + 1)`.
pub proof fn lemma_binomial_diagonal_monotone(m: nat, j: nat)
    ensures
        binomial(m, j) <= binomial(m + 1, j + 1),
{
    assert(binomial(m + 1, j + 1) == binomial(m, j) + binomial(m, j + 1));
}

/// Symmetry of the binomial coefficients: `C(n, k) = C(n, n - k)` for `k <= n`.
pub proof fn lemma_binomial_symmetry(n: nat, k: nat)
    requires
        k <= n,
    ensures
        binomial(n, k) == binomial(n, (n - k) as nat),
    decreases n,
{
    lemma_binomial_edges(n, 0);
    if k == 0 || k == n {
        lemma_binomial_edges(n, n);
    } else {
        let p = (n - 1) as nat;
        lemma_binomial_symmetry(p, (k - 1) as nat);
        lemma_binomial_symmetry(p, k);
        assert(binomial(n, (n - k) as nat) == binomial(p, (n - k - 1) as nat) + binomial(
            p,
            (n - k) as nat,
        ));
    }
}

/// The factorial formula: `C(n, k) * k! * (n - k)! = n!` for `k <= n`.
pub proof fn lemma_binomial_factorial(n: nat, k: nat)
    requires
        k <= n,
    ensures
        binomial(n, k) * factorial_of(k) * factorial_of((n - k) as nat) == factorial_of(n),
    decreases k,
{
    if k == 0 {
        let f = factorial_of(n);
        assert(factorial_of((n - k) as nat) == f);
        assert(binomial(n, k) == 1);
        assert(factorial_of(k) == 1);
        assert(1 * 1 * f == f) by (nonlinear_arith);
    } else {
        let p = (n - 1) as nat;
        let q = (k - 1) as nat;
        lemma_binomial_factorial(p, q);
        lemma_binomial_absorption(p, q);
        let c = binomial(n, k);
        let c1 = binomial(p, q);
        let fk = factorial_of(k);
        let fq = factorial_of(q);
        let fr = factorial_of((n - k) as nat);
        let fn_ = factorial_of(n);
        let fp = factorial_of(p);
        assert((p - q) as nat == (n - k) as nat);
        assert(fk == k * fq);
        assert(fn_ == n * fp);
        assert(c * fk * fr == fn_) by (nonlinear_arith)
            requires
                k * c == n * c1,
                c1 * fq * fr == fp,
                fk == k * fq,
                fn_ == n * fp,
                k > 0,
        ;
    }
}

/// The binomial coefficient `C(n, k)`, for `k <= n`.
///
/// The result is computed as `C(n-k+i, i) = (n-k+i) * C(n-k+i-1, i-1) / i` for `i = 1..=k`;
/// the largest intermediate product is `k * C(n, k)`, which must fit in a `u32`.
pub fn binomial_coefficient(n: u32, k: u32) -> (r: u32)
    requires
        k <= n,
        k == 0 || k == n || k * binomial(n as nat, k as nat) <= u32::MAX,
    ensures
        r == binomial(n as nat, k as nat),
{
    proof {
        lemma_binomial_edges(n as nat, k as nat);
    }
    if k == 0 || k == n {
        return 1;
    }
    let mut acc: u32 = 1;
    let mut i: u32 = 1;
    while i <= k
        invariant
            0 < k < n,
            1 <= i <= k + 1,
            k * binomial(n as nat, k as nat) <= u32::MAX,
            acc == binomial((n - k + i - 1) as nat, (i - 1) as nat),
        decreases k + 1 - i,
    {
        let m = n - k + i;
        proof {
            let mm = (m - 1) as nat;
            let ii = (i - 1) as nat;
            lemma_binomial_absorption(mm, ii);
            // i * C(m, i) <= k * C(n, k)
            lemma_binomial_chain_bound(m as nat, i as nat, n as nat, k as nat);
            assert(m * acc == i * binomial(m as nat, i as nat)) by (nonlinear_arith)
                requires
                    i * binomial(mm + 1, ii + 1) == (mm + 1) * binomial(mm, ii),
                    mm + 1 == m,
                    ii + 1 == i,
                    acc == binomial(mm, ii),
            ;
            assert((i * binomial(m as nat, i as nat)) / (i as int) == binomial(m as nat, i as nat))
                by (nonlinear_arith)
                requires
                    i > 0,
            ;
        }
        acc = (m * acc) / i;
        i = i + 1;
    }
    acc
}

/// Along a diagonal of Pascal's triangle, `i * C(n - k + i, i)` grows with `i`.
proof fn lemma_binomial_chain_bound(m: nat, i: nat, n: nat, k: nat)
    requires
        1 <= i <= k,
        k <= n,
        m == n - k + i,
    ensures
        i * binomial(m, i) <= k * binomial(n, k),
    decreases k - i,
{
    if i < k {
        lemma_binomial_chain_bound(m + 1, i + 1, n, k);
        lemma_binomial_diagonal_monotone(m, i);
        let a = binomial(m, i);
        let b = binomial(m + 1, i + 1);
        assert(i * a <= (i + 1) * b) by (nonlinear_arith)
            requires
                a <= b,
        ;
    }
}

} // verus!
