//! Factorials and double factorials of primitive integers.
use vstd::prelude::*;

verus! {

/// `n!`
pub open spec fn factorial_of(n: nat) -> nat
    decreases n,
{
    if n == 0 {
        1
    } else {
        n * factorial_of((n - 1) as nat)
    }
}

/// `n!!`, the product of the positive integers up to `n` that have the parity of `n`.
pub open spec fn double_factorial_of(n: nat) -> nat
    decreases n,
{
    if n <= 1 {
        1
    } else {
        n * double_factorial_of((n - 2) as nat)
    }
}

/// `n!` is positive and grows with `n`: `1 <= i! <= j!` and `j <= j!` for `i <= j`.
pub proof fn lemma_factorial_monotone(i: nat, j: nat)
    requires
        i <= j,
    ensures
        1 <= factorial_of(i) <= factorial_of(j),
        j <= factorial_of(j),
    decreases j,
{
    if j > 0 {
        let k = (j - 1) as nat;
        if i < j {
            lemma_factorial_monotone(i, k);
        } else {
            lemma_factorial_monotone(k, k);
        }
        let fk = factorial_of(k);
        assert(fk <= j * fk && j <= j * fk) by (nonlinear_arith)
            requires
                1 <= fk,
                1 <= j,
        ;
    }
}

/// `n!!` is positive and grows with `n` in steps of two: `1 <= i!! <= (i + 2k)!!`, and
/// `n <= n!!`.
pub proof fn lemma_double_factorial_monotone(i: nat, j: nat)
    requires
        i <= j,
        (j - i) % 2 == 0,
    ensures
        1 <= double_factorial_of(i) <= double_factorial_of(j),
        j <= double_factorial_of(j),
    decreases j,
{
    if j <= 1 {
    } else {
        let k = (j - 2) as nat;
        if i < j {
            lemma_double_factorial_monotone(i, k);
        } else {
            lemma_double_factorial_monotone(k % 2, k);
        }
        let fk = double_factorial_of(k);
        assert(fk <= j * fk && j <= j * fk) by (nonlinear_arith)
            requires
                1 <= fk,
                1 <= j,
        ;
    }
}

/// `n! = n * (n-1)!`, and `n!! = n * (n-2)!!` for `n >= 2`; `n! = n!! * (n-1)!!`.
pub proof fn lemma_factorial_recurrences(n: nat)
    ensures
        n >= 1 ==> factorial_of(n) == n * factorial_of((n - 1) as nat),
        n >= 2 ==> double_factorial_of(n) == n * double_factorial_of((n - 2) as nat),
        n >= 1 ==> factorial_of(n) == double_factorial_of(n) * double_factorial_of(
            (n - 1) as nat,
        ),
    decreases n,
{
    if n >= 2 {
        lemma_factorial_recurrences((n - 1) as nat);
        let a = double_factorial_of(n);
        let b = double_factorial_of((n - 1) as nat);
        let c = double_factorial_of((n - 2) as nat);
        let f1 = factorial_of((n - 1) as nat);
        assert(n * f1 == a * b) by (nonlinear_arith)
            requires
                f1 == b * c,
                a == n * c,
        ;
    }
}

/// `n!` on a machine integer, with the product computed in 64 bits.
fn factorial_u64(n: u64) -> (r: u64)
    requires
        factorial_of(n as nat) <= u64::MAX,
    ensures
        r == factorial_of(n as nat),
{
    let mut acc: u64 = 1;
    let mut k: u64 = 0;
    while k < n
        invariant
            k <= n,
            factorial_of(n as nat) <= u64::MAX,
            acc == factorial_of(k as nat),
        decreases n - k,
    {
        k = k + 1;
        proof {
            lemma_factorial_monotone(k as nat, n as nat);
            assert(factorial_of(k as nat) == k * factorial_of((k - 1) as nat));
            assert(acc * k == k * acc) by (nonlinear_arith);
        }
        acc = acc * k;
    }
    acc
}

/// `n!!` on a machine integer, computed in 64 bits by multiplying `n`, `n - 2`, ... down
/// to 2 or 3.
pub(crate) fn double_factorial_u64(n: u64) -> (r: u64)
    requires
        double_factorial_of(n as nat) <= u64::MAX,
    ensures
        r == double_factorial_of(n as nat),
{
    if n <= 1 {
        return 1;
    }
    let mut acc: u64 = n;
    let mut mul: u64 = n - 2;
    proof {
        lemma_double_factorial_monotone(mul as nat, n as nat);
    }
    while mul >= 2
        invariant
            2 <= n,
            mul <= n - 2,
            (n - mul) % 2 == 0,
            double_factorial_of(n as nat) <= u64::MAX,
            acc * double_factorial_of(mul as nat) == double_factorial_of(n as nat),
        decreases mul,
    {
        let ghost old_acc = acc;
        let ghost d = double_factorial_of((mul - 2) as nat);
        proof {
            lemma_double_factorial_monotone((mul - 2) as nat, (mul - 2) as nat);
            assert(acc * mul <= acc * (mul * d)) by (nonlinear_arith)
                requires
                    1 <= d,
            ;
            assert(acc * (mul * d) == (acc * mul) * d) by (nonlinear_arith);
        }
        acc = acc * mul;
        mul = mul - 2;
    }
    proof {
        let d = double_factorial_of(mul as nat);
        assert(d == 1);
        assert(acc * d == acc) by (nonlinear_arith)
            requires
                d == 1,
        ;
    }
    acc
}

/// Compute the factorial, `x!`.
pub trait Factorial: Sized {
    /// The integer value of `self`.
    spec fn int_value(self) -> int;

    /// The largest value of the type.
    spec fn type_max() -> int;

    /// `x!`
    fn factorial(self) -> (r: Self)
        requires
            0 <= self.int_value(),
            factorial_of(self.int_value() as nat) <= Self::type_max(),
        ensures
            r.int_value() == factorial_of(self.int_value() as nat),
    ;
}

/// Compute the [double factorial](https://en.wikipedia.org/wiki/Double_factorial).
pub trait DoubleFactorial: Sized {
    /// The integer value of `self`.
    spec fn int_value(self) -> int;

    /// The largest value of the type.
    spec fn type_max() -> int;

    /// `x!!`
    fn double_factorial(self) -> (r: Self)
        requires
            0 <= self.int_value(),
            double_factorial_of(self.int_value() as nat) <= Self::type_max(),
        ensures
            r.int_value() == double_factorial_of(self.int_value() as nat),
    ;
}

impl Factorial for u8 {
    open spec fn int_value(self) -> int {
        self as int
    }

    open spec fn type_max() -> int {
        u8::MAX as int
    }

    fn factorial(self) -> (r: Self) {
        factorial_u64(self as u64) as u8
    }
}

impl Factorial for u16 {
    open spec fn int_value(self) -> int {
        self as int
    }

    open spec fn type_max() -> int {
        u16::MAX as int
    }

    fn factorial(self) -> (r: Self) {
        factorial_u64(self as u64) as u16
    }
}

impl Factorial for u32 {
    open spec fn int_value(self) -> int {
        self as int
    }

    open spec fn type_max() -> int {
        u32::MAX as int
    }

    fn factorial(self) -> (r: Self) {
        factorial_u64(self as u64) as u32
    }
}

impl Factorial for u64 {
    open spec fn int_value(self) -> int {
        self as int
    }

    open spec fn type_max() -> int {
        u64::MAX as int
    }

    fn factorial(self) -> (r: Self) {
        factorial_u64(self)
    }
}

impl Factorial for usize {
    open spec fn int_value(self) -> int {
        self as int
    }

    open spec fn type_max() -> int {
        usize::MAX as int
    }

    fn factorial(self) -> (r: Self) {
        factorial_u64(self as u64) as usize
    }
}

impl Factorial for i32 {
    open spec fn int_value(self) -> int {
        self as int
    }

    open spec fn type_max() -> int {
        i32::MAX as int
    }

    fn factorial(self) -> (r: Self) {
        factorial_u64(self as u64) as i32
    }
}

impl Factorial for i64 {
    open spec fn int_value(self) -> int {
        self as int
    }

    open spec fn type_max() -> int {
        i64::MAX as int
    }

    fn factorial(self) -> (r: Self) {
        factorial_u64(self as u64) as i64
    }
}

impl DoubleFactorial for u8 {
    open spec fn int_value(self) -> int {
        self as int
    }

    open spec fn type_max() -> int {
        u8::MAX as int
    }

    fn double_factorial(self) -> (r: Self) {
        double_factorial_u64(self as u64) as u8
    }
}

impl DoubleFactorial for u16 {
    open spec fn int_value(self) -> int {
        self as int
    }

    open spec fn type_max() -> int {
        u16::MAX as int
    }

    fn double_factorial(self) -> (r: Self) {
        double_factorial_u64(self as u64) as u16
    }
}

impl DoubleFactorial for u32 {
    open spec fn int_value(self) -> int {
        self as int
    }

    open spec fn type_max() -> int {
        u32::MAX as int
    }

    fn double_factorial(self) -> (r: Self) {
        double_factorial_u64(self as u64) as u32
    }
}

impl DoubleFactorial for u64 {
    open spec fn int_value(self) -> int {
        self as int
    }

    open spec fn type_max() -> int {
        u64::MAX as int
    }

    fn double_factorial(self) -> (r: Self) {
        double_factorial_u64(self)
    }
}

impl DoubleFactorial for usize {
    open spec fn int_value(self) -> int {
        self as int
    }

    open spec fn type_max() -> int {
        usize::MAX as int
    }

    fn double_factorial(self) -> (r: Self) {
        double_factorial_u64(self as u64) as usize
    }
}

impl DoubleFactorial for i32 {
    open spec fn int_value(self) -> int {
        self as int
    }

    open spec fn type_max() -> int {
        i32::MAX as int
    }

    fn double_factorial(self) -> (r: Self) {
        double_factorial_u64(self as u64) as i32
    }
}

impl DoubleFactorial for i64 {
    open spec fn int_value(self) -> int {
        self as int
    }

    open spec fn type_max() -> int {
        i64::MAX as int
    }

    fn double_factorial(self) -> (r: Self) {
        double_factorial_u64(self as u64) as i64
    }
}

} // verus!
