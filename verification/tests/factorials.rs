use evanescence_core::numerics::double_factorial::DoubleFactorial as MacroDoubleFactorial;
use evanescence_core::numerics::special::binomial_coefficient;
use evanescence_core::numerics::special::factorial::{DoubleFactorial, Factorial};

#[test]
fn double_factorial_double_factorial() {
    assert_eq!(
        &[1, 1, 2, 3, 8, 15, 48, 105, 384, 945, 3840],
        &(0_u32..=10)
            .map(MacroDoubleFactorial::double_factorial)
            .collect::<Vec<_>>()[..]
    );
}

#[test]
fn factorial() {
    assert_eq!(
        &[1, 1, 2, 6, 24, 120, 720, 5_040, 40_320, 362_880, 3_628_800],
        &(0_u32..=10).map(Factorial::factorial).collect::<Vec<_>>()[..]
    );
}

#[test]
fn factorial_double_factorial() {
    assert_eq!(
        &[1, 1, 2, 3, 8, 15, 48, 105, 384, 945, 3840],
        &(0_u32..=10)
            .map(DoubleFactorial::double_factorial)
            .collect::<Vec<_>>()[..]
    );
}

#[test]
fn factorials_of_other_types() {
    assert_eq!(2_432_902_008_176_640_000_u64, 20_u64.factorial());
    assert_eq!(120_u8, 5_u8.factorial());
    assert_eq!(479_001_600_i32, 12_i32.factorial());
    assert_eq!(1_i64, 0_i64.factorial());
    assert_eq!(945_u16, MacroDoubleFactorial::double_factorial(9_u16));
    assert_eq!(2_027_025_usize, MacroDoubleFactorial::double_factorial(15_usize));
    assert_eq!(3840_i64, DoubleFactorial::double_factorial(10_i64));
    // n! = n!! * (n-1)!!
    for n in 1_u64..=15 {
        assert_eq!(
            n.factorial(),
            DoubleFactorial::double_factorial(n) * DoubleFactorial::double_factorial(n - 1)
        );
    }
}

#[test]
fn binomial_coefficients() {
    assert_eq!(1, binomial_coefficient(0, 0));
    assert_eq!(1, binomial_coefficient(7, 0));
    assert_eq!(1, binomial_coefficient(7, 7));
    assert_eq!(10, binomial_coefficient(5, 2));
    assert_eq!(10, binomial_coefficient(5, 3));
    assert_eq!(184_756, binomial_coefficient(20, 10));
    assert_eq!(4_294_967_295, binomial_coefficient(u32::MAX, 1));
    // Pascal's rule and the factorial formula on small values.
    for n in 1_u32..=12 {
        for k in 1..n {
            assert_eq!(
                binomial_coefficient(n, k),
                binomial_coefficient(n - 1, k - 1) + binomial_coefficient(n - 1, k)
            );
            assert_eq!(binomial_coefficient(n, k), binomial_coefficient(n, n - k));
            assert_eq!(
                u64::from(n).factorial(),
                u64::from(binomial_coefficient(n, k))
                    * u64::from(k).factorial()
                    * u64::from(n - k).factorial()
            );
        }
    }
}
