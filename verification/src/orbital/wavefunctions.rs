//! The radial and angular components of the hydrogenic wavefunction, and the expressions
//! naming the real spherical harmonics.
use vstd::prelude::*;
use crate::orbital::quantum_numbers::{Lm, abs};
use crate::numerics::special::spherical_harmonics::{
    cartesian_runs, fits_harmonic, polynomial_terms, runs_tokens, scan_from,
};

verus! {

/// The abbreviated Cartesian expression of the real spherical harmonic `S_lm`, for `l <= 4`.
pub open spec fn real_harmonic_expression(l: u32, m: i32) -> Option<Seq<char>> {
    if l > 4 {
        None
    } else if l == 0 && m == 0 {
        Some(""@)
    } else if l == 1 && m == -1 {
        Some("y"@)
    } else if l == 1 && m == 0 {
        Some("z"@)
    } else if l == 1 && m == 1 {
        Some("x"@)
    } else if l == 2 && m == -2 {
        Some("xy"@)
    } else if l == 2 && m == -1 {
        Some("yz"@)
    } else if l == 2 && m == 0 {
        Some("z²"@)
    } else if l == 2 && m == 1 {
        Some("xz"@)
    } else if l == 2 && m == 2 {
        Some("x²−y²"@)
    } else if l == 3 && m == -3 {
        Some("y(3x²−y²)"@)
    } else if l == 3 && m == -2 {
        Some("xyz"@)
    } else if l == 3 && m == -1 {
        Some("yz²"@)
    } else if l == 3 && m == 0 {
        Some("z³"@)
    } else if l == 3 && m == 1 {
        Some("xz²"@)
    } else if l == 3 && m == 2 {
        Some("z(x²−y²)"@)
    } else if l == 3 && m == 3 {
        Some("x(x²−3y²)"@)
    } else if l == 4 && m == -4 {
        Some("xy(x²−y²)"@)
    } else if l == 4 && m == -3 {
        Some("zy³"@)
    } else if l == 4 && m == -2 {
        Some("z²xy"@)
    } else if l == 4 && m == -1 {
        Some("z³y"@)
    } else if l == 4 && m == 0 {
        Some("z⁴"@)
    } else if l == 4 && m == 1 {
        Some("z³x"@)
    } else if l == 4 && m == 2 {
        Some("z²(x²−y²)"@)
    } else if l == 4 && m == 3 {
        Some("zx³"@)
    } else if l == 4 && m == 4 {
        Some("x⁴+y⁴"@)
    } else {
        None
    }
}

/// The `(l, m)` whose expression is `e`, told apart by the length of `e` and its first, second
/// and last characters; `(5, 0)` for a text that is no expression.
pub open spec fn expression_owner(e: Seq<char>) -> (u32, i32) {
    if e.len() == 0 {
        (0, 0)
    } else if e.len() == 1 && e[0] == 'y' {
        (1, -1i32)
    } else if e.len() == 1 && e[0] == 'z' {
        (1, 0)
    } else if e.len() == 1 && e[0] == 'x' {
        (1, 1)
    } else if e.len() == 2 && e[0] == 'x' && e[1] == 'y' && e[1] == 'y' {
        (2, -2i32)
    } else if e.len() == 2 && e[0] == 'y' && e[1] == 'z' && e[1] == 'z' {
        (2, -1i32)
    } else if e.len() == 2 && e[0] == 'z' && e[1] == '²' && e[1] == '²' {
        (2, 0)
    } else if e.len() == 2 && e[0] == 'x' && e[1] == 'z' && e[1] == 'z' {
        (2, 1)
    } else if e.len() == 5 && e[0] == 'x' && e[1] == '²' && e[4] == '²' {
        (2, 2)
    } else if e.len() == 9 && e[0] == 'y' && e[1] == '(' && e[8] == ')' {
        (3, -3i32)
    } else if e.len() == 3 && e[0] == 'x' && e[1] == 'y' && e[2] == 'z' {
        (3, -2i32)
    } else if e.len() == 3 && e[0] == 'y' && e[1] == 'z' && e[2] == '²' {
        (3, -1i32)
    } else if e.len() == 2 && e[0] == 'z' && e[1] == '³' && e[1] == '³' {
        (3, 0)
    } else if e.len() == 3 && e[0] == 'x' && e[1] == 'z' && e[2] == '²' {
        (3, 1)
    } else if e.len() == 8 && e[0] == 'z' && e[1] == '(' && e[7] == ')' {
        (3, 2)
    } else if e.len() == 9 && e[0] == 'x' && e[1] == '(' && e[8] == ')' {
        (3, 3)
    } else if e.len() == 9 && e[0] == 'x' && e[1] == 'y' && e[8] == ')' {
        (4, -4i32)
    } else if e.len() == 3 && e[0] == 'z' && e[1] == 'y' && e[2] == '³' {
        (4, -3i32)
    } else if e.len() == 4 && e[0] == 'z' && e[1] == '²' && e[3] == 'y' {
        (4, -2i32)
    } else if e.len() == 3 && e[0] == 'z' && e[1] == '³' && e[2] == 'y' {
        (4, -1i32)
    } else if e.len() == 2 && e[0] == 'z' && e[1] == '⁴' && e[1] == '⁴' {
        (4, 0)
    } else if e.len() == 3 && e[0] == 'z' && e[1] == '³' && e[2] == 'x' {
        (4, 1)
    } else if e.len() == 9 && e[0] == 'z' && e[1] == '²' && e[8] == ')' {
        (4, 2)
    } else if e.len() == 3 && e[0] == 'z' && e[1] == 'x' && e[2] == '³' {
        (4, 3)
    } else if e.len() == 5 && e[0] == 'x' && e[1] == '⁴' && e[4] == '⁴' {
        (4, 4)
    } else {
        (5, 0)
    }
}

/// Every expression names its own `(l, m)`: [`expression_owner`] gives it back.
pub proof fn lemma_expression_owner(l: u32, m: i32)
    requires
        l <= 4,
        abs(m as int) <= l,
    ensures
        real_harmonic_expression(l, m) matches Some(e) && expression_owner(e) == (l, m),
{
    reveal_strlit("");
    reveal_strlit("y");
    reveal_strlit("z");
    reveal_strlit("x");
    reveal_strlit("xy");
    reveal_strlit("yz");
    reveal_strlit("z²");
    reveal_strlit("xz");
    reveal_strlit("x²−y²");
    reveal_strlit("y(3x²−y²)");
    reveal_strlit("xyz");
    reveal_strlit("yz²");
    reveal_strlit("z³");
    reveal_strlit("xz²");
    reveal_strlit("z(x²−y²)");
    reveal_strlit("x(x²−3y²)");
    reveal_strlit("xy(x²−y²)");
    reveal_strlit("zy³");
    reveal_strlit("z²xy");
    reveal_strlit("z³y");
    reveal_strlit("z⁴");
    reveal_strlit("z³x");
    reveal_strlit("z²(x²−y²)");
    reveal_strlit("zx³");
    reveal_strlit("x⁴+y⁴");
}

/// Each `(l, m)` with `l <= 4` and `|m| <= l` has an expression, and its own: distinct such
/// pairs have distinct expressions.
pub proof fn lemma_expressions_distinct(l1: u32, m1: i32, l2: u32, m2: i32)
    requires
        l1 <= 4,
        l2 <= 4,
        abs(m1 as int) <= l1,
        abs(m2 as int) <= l2,
        l1 != l2 || m1 != m2,
    ensures
        real_harmonic_expression(l1, m1) is Some,
        real_harmonic_expression(l2, m2) is Some,
        real_harmonic_expression(l1, m1) != real_harmonic_expression(l2, m2),
{
    lemma_expression_owner(l1, m1);
    lemma_expression_owner(l2, m2);
}

/// The tokens of a plain-text expression: each character, with the Unicode superscript digits
/// `²`, `³` and `⁴` read as superscript `2`, `3` and `4`.
pub open spec fn text_tokens(t: Seq<char>) -> Seq<(bool, char)> {
    t.map_values(
        |c: char|
            if c == '²' {
                (true, '2')
            } else if c == '³' {
                (true, '3')
            } else if c == '⁴' {
                (true, '4')
            } else {
                (false, c)
            },
    )
}

proof fn lemma_expression_terms_0_0()
    ensures
        real_harmonic_expression(0u32, 0i32) matches Some(e) && polynomial_terms(text_tokens(e)) == seq![(1int, 1int, 0int, 0int, 0int)],
{
    reveal_strlit("");
    reveal_with_fuel(scan_from, 11);
    let e = real_harmonic_expression(0u32, 0i32)->0;
    assert(text_tokens(e) =~= Seq::<(bool, char)>::empty());
    assert(polynomial_terms(text_tokens(e)) =~= seq![(1int, 1int, 0int, 0int, 0int)]);
}

proof fn lemma_expression_terms_1_neg1()
    ensures
        real_harmonic_expression(1u32, -1i32) matches Some(e) && polynomial_terms(text_tokens(e)) == seq![(1int, 1int, 0int, 1int, 0int)],
{
    reveal_strlit("y");
    reveal_with_fuel(scan_from, 11);
    let e = real_harmonic_expression(1u32, -1i32)->0;
    assert(text_tokens(e) =~= seq![(false, 'y')]);
    assert(polynomial_terms(text_tokens(e)) =~= seq![(1int, 1int, 0int, 1int, 0int)]);
}

proof fn lemma_expression_terms_1_0()
    ensures
        real_harmonic_expression(1u32, 0i32) matches Some(e) && polynomial_terms(text_tokens(e)) == seq![(1int, 1int, 0int, 0int, 1int)],
{
    reveal_strlit("z");
    reveal_with_fuel(scan_from, 11);
    let e = real_harmonic_expression(1u32, 0i32)->0;
    assert(text_tokens(e) =~= seq![(false, 'z')]);
    assert(polynomial_terms(text_tokens(e)) =~= seq![(1int, 1int, 0int, 0int, 1int)]);
}

proof fn lemma_expression_terms_1_1()
    ensures
        real_harmonic_expression(1u32, 1i32) matches Some(e) && polynomial_terms(text_tokens(e)) == seq![(1int, 1int, 1int, 0int, 0int)],
{
    reveal_strlit("x");
    reveal_with_fuel(scan_from, 11);
    let e = real_harmonic_expression(1u32, 1i32)->0;
    assert(text_tokens(e) =~= seq![(false, 'x')]);
    assert(polynomial_terms(text_tokens(e)) =~= seq![(1int, 1int, 1int, 0int, 0int)]);
}

proof fn lemma_expression_terms_2_neg2()
    ensures
        real_harmonic_expression(2u32, -2i32) matches Some(e) && polynomial_terms(text_tokens(e)) == seq![(1int, 1int, 1int, 1int, 0int)],
{
    reveal_strlit("xy");
    reveal_with_fuel(scan_from, 11);
    let e = real_harmonic_expression(2u32, -2i32)->0;
    assert(text_tokens(e) =~= seq![(false, 'x'), (false, 'y')]);
    assert(polynomial_terms(text_tokens(e)) =~= seq![(1int, 1int, 1int, 1int, 0int)]);
}

proof fn lemma_expression_terms_2_neg1()
    ensures
        real_harmonic_expression(2u32, -1i32) matches Some(e) && polynomial_terms(text_tokens(e)) == seq![(1int, 1int, 0int, 1int, 1int)],
{
    reveal_strlit("yz");
    reveal_with_fuel(scan_from, 11);
    let e = real_harmonic_expression(2u32, -1i32)->0;
    assert(text_tokens(e) =~= seq![(false, 'y'), (false, 'z')]);
    assert(polynomial_terms(text_tokens(e)) =~= seq![(1int, 1int, 0int, 1int, 1int)]);
}

proof fn lemma_expression_terms_2_0()
    ensures
        real_harmonic_expression(2u32, 0i32) matches Some(e) && polynomial_terms(text_tokens(e)) == seq![(1int, 1int, 0int, 0int, 2int)],
{
    reveal_strlit("z²");
    reveal_with_fuel(scan_from, 11);
    let e = real_harmonic_expression(2u32, 0i32)->0;
    assert(text_tokens(e) =~= seq![(false, 'z'), (true, '2')]);
    assert(polynomial_terms(text_tokens(e)) =~= seq![(1int, 1int, 0int, 0int, 2int)]);
}

proof fn lemma_expression_terms_2_1()
    ensures
        real_harmonic_expression(2u32, 1i32) matches Some(e) && polynomial_terms(text_tokens(e)) == seq![(1int, 1int, 1int, 0int, 1int)],
{
    reveal_strlit("xz");
    reveal_with_fuel(scan_from, 11);
    let e = real_harmonic_expression(2u32, 1i32)->0;
    assert(text_tokens(e) =~= seq![(false, 'x'), (false, 'z')]);
    assert(polynomial_terms(text_tokens(e)) =~= seq![(1int, 1int, 1int, 0int, 1int)]);
}

proof fn lemma_expression_terms_2_2()
    ensures
        real_harmonic_expression(2u32, 2i32) matches Some(e) && polynomial_terms(text_tokens(e)) == seq![(1int, 1int, 2int, 0int, 0int), (-1int, 1int, 0int, 2int, 0int)],
{
    reveal_strlit("x²−y²");
    reveal_with_fuel(scan_from, 11);
    let e = real_harmonic_expression(2u32, 2i32)->0;
    assert(text_tokens(e) =~= seq![(false, 'x'), (true, '2'), (false, '−'), (false, 'y'), (true, '2')]);
    assert(polynomial_terms(text_tokens(e)) =~= seq![(1int, 1int, 2int, 0int, 0int), (-1int, 1int, 0int, 2int, 0int)]);
}

proof fn lemma_expression_terms_3_neg3()
    ensures
        real_harmonic_expression(3u32, -3i32) matches Some(e) && polynomial_terms(text_tokens(e)) == seq![(1int, 3int, 2int, 1int, 0int), (-1int, 1int, 0int, 3int, 0int)],
{
    reveal_strlit("y(3x²−y²)");
    reveal_with_fuel(scan_from, 11);
    let e = real_harmonic_expression(3u32, -3i32)->0;
    assert(text_tokens(e) =~= seq![(false, 'y'), (false, '('), (false, '3'), (false, 'x'), (true, '2'), (false, '−'), (false, 'y'), (true, '2'), (false, ')')]);
    assert(polynomial_terms(text_tokens(e)) =~= seq![(1int, 3int, 2int, 1int, 0int), (-1int, 1int, 0int, 3int, 0int)]);
}

proof fn lemma_expression_terms_3_neg2()
    ensures
        real_harmonic_expression(3u32, -2i32) matches Some(e) && polynomial_terms(text_tokens(e)) == seq![(1int, 1int, 1int, 1int, 1int)],
{
    reveal_strlit("xyz");
    reveal_with_fuel(scan_from, 11);
    let e = real_harmonic_expression(3u32, -2i32)->0;
    assert(text_tokens(e) =~= seq![(false, 'x'), (false, 'y'), (false, 'z')]);
    assert(polynomial_terms(text_tokens(e)) =~= seq![(1int, 1int, 1int, 1int, 1int)]);
}

proof fn lemma_expression_terms_3_neg1()
    ensures
        real_harmonic_expression(3u32, -1i32) matches Some(e) && polynomial_terms(text_tokens(e)) == seq![(1int, 1int, 0int, 1int, 2int)],
{
    reveal_strlit("yz²");
    reveal_with_fuel(scan_from, 11);
    let e = real_harmonic_expression(3u32, -1i32)->0;
    assert(text_tokens(e) =~= seq![(false, 'y'), (false, 'z'), (true, '2')]);
    assert(polynomial_terms(text_tokens(e)) =~= seq![(1int, 1int, 0int, 1int, 2int)]);
}

proof fn lemma_expression_terms_3_0()
    ensures
        real_harmonic_expression(3u32, 0i32) matches Some(e) && polynomial_terms(text_tokens(e)) == seq![(1int, 1int, 0int, 0int, 3int)],
{
    reveal_strlit("z³");
    reveal_with_fuel(scan_from, 11);
    let e = real_harmonic_expression(3u32, 0i32)->0;
    assert(text_tokens(e) =~= seq![(false, 'z'), (true, '3')]);
    assert(polynomial_terms(text_tokens(e)) =~= seq![(1int, 1int, 0int, 0int, 3int)]);
}

proof fn lemma_expression_terms_3_1()
    ensures
        real_harmonic_expression(3u32, 1i32) matches Some(e) && polynomial_terms(text_tokens(e)) == seq![(1int, 1int, 1int, 0int, 2int)],
{
    reveal_strlit("xz²");
    reveal_with_fuel(scan_from, 11);
    let e = real_harmonic_expression(3u32, 1i32)->0;
    assert(text_tokens(e) =~= seq![(false, 'x'), (false, 'z'), (true, '2')]);
    assert(polynomial_terms(text_tokens(e)) =~= seq![(1int, 1int, 1int, 0int, 2int)]);
}

proof fn lemma_expression_terms_3_2()
    ensures
        real_harmonic_expression(3u32, 2i32) matches Some(e) && polynomial_terms(text_tokens(e)) == seq![(1int, 1int, 2int, 0int, 1int), (-1int, 1int, 0int, 2int, 1int)],
{
    reveal_strlit("z(x²−y²)");
    reveal_with_fuel(scan_from, 11);
    let e = real_harmonic_expression(3u32, 2i32)->0;
    assert(text_tokens(e) =~= seq![(false, 'z'), (false, '('), (false, 'x'), (true, '2'), (false, '−'), (false, 'y'), (true, '2'), (false, ')')]);
    assert(polynomial_terms(text_tokens(e)) =~= seq![(1int, 1int, 2int, 0int, 1int), (-1int, 1int, 0int, 2int, 1int)]);
}

proof fn lemma_expression_terms_3_3()
    ensures
        real_harmonic_expression(3u32, 3i32) matches Some(e) && polynomial_terms(text_tokens(e)) == seq![(1int, 1int, 3int, 0int, 0int), (-1int, 3int, 1int, 2int, 0int)],
{
    reveal_strlit("x(x²−3y²)");
    reveal_with_fuel(scan_from, 11);
    let e = real_harmonic_expression(3u32, 3i32)->0;
    assert(text_tokens(e) =~= seq![(false, 'x'), (false, '('), (false, 'x'), (true, '2'), (false, '−'), (false, '3'), (false, 'y'), (true, '2'), (false, ')')]);
    assert(polynomial_terms(text_tokens(e)) =~= seq![(1int, 1int, 3int, 0int, 0int), (-1int, 3int, 1int, 2int, 0int)]);
}

proof fn lemma_expression_terms_4_neg4()
    ensures
        real_harmonic_expression(4u32, -4i32) matches Some(e) && polynomial_terms(text_tokens(e)) == seq![(1int, 1int, 3int, 1int, 0int), (-1int, 1int, 1int, 3int, 0int)],
{
    reveal_strlit("xy(x²−y²)");
    reveal_with_fuel(scan_from, 11);
    let e = real_harmonic_expression(4u32, -4i32)->0;
    assert(text_tokens(e) =~= seq![(false, 'x'), (false, 'y'), (false, '('), (false, 'x'), (true, '2'), (false, '−'), (false, 'y'), (true, '2'), (false, ')')]);
    assert(polynomial_terms(text_tokens(e)) =~= seq![(1int, 1int, 3int, 1int, 0int), (-1int, 1int, 1int, 3int, 0int)]);
}

proof fn lemma_expression_terms_4_neg3()
    ensures
        real_harmonic_expression(4u32, -3i32) matches Some(e) && polynomial_terms(text_tokens(e)) == seq![(1int, 1int, 0int, 3int, 1int)],
{
    reveal_strlit("zy³");
    reveal_with_fuel(scan_from, 11);
    let e = real_harmonic_expression(4u32, -3i32)->0;
    assert(text_tokens(e) =~= seq![(false, 'z'), (false, 'y'), (true, '3')]);
    assert(polynomial_terms(text_tokens(e)) =~= seq![(1int, 1int, 0int, 3int, 1int)]);
}

proof fn lemma_expression_terms_4_neg2()
    ensures
        real_harmonic_expression(4u32, -2i32) matches Some(e) && polynomial_terms(text_tokens(e)) == seq![(1int, 1int, 1int, 1int, 2int)],
{
    reveal_strlit("z²xy");
    reveal_with_fuel(scan_from, 11);
    let e = real_harmonic_expression(4u32, -2i32)->0;
    assert(text_tokens(e) =~= seq![(false, 'z'), (true, '2'), (false, 'x'), (false, 'y')]);
    assert(polynomial_terms(text_tokens(e)) =~= seq![(1int, 1int, 1int, 1int, 2int)]);
}

proof fn lemma_expression_terms_4_neg1()
    ensures
        real_harmonic_expression(4u32, -1i32) matches Some(e) && polynomial_terms(text_tokens(e)) == seq![(1int, 1int, 0int, 1int, 3int)],
{
    reveal_strlit("z³y");
    reveal_with_fuel(scan_from, 11);
    let e = real_harmonic_expression(4u32, -1i32)->0;
    assert(text_tokens(e) =~= seq![(false, 'z'), (true, '3'), (false, 'y')]);
    assert(polynomial_terms(text_tokens(e)) =~= seq![(1int, 1int, 0int, 1int, 3int)]);
}

proof fn lemma_expression_terms_4_0()
    ensures
        real_harmonic_expression(4u32, 0i32) matches Some(e) && polynomial_terms(text_tokens(e)) == seq![(1int, 1int, 0int, 0int, 4int)],
{
    reveal_strlit("z⁴");
    reveal_with_fuel(scan_from, 11);
    let e = real_harmonic_expression(4u32, 0i32)->0;
    assert(text_tokens(e) =~= seq![(false, 'z'), (true, '4')]);
    assert(polynomial_terms(text_tokens(e)) =~= seq![(1int, 1int, 0int, 0int, 4int)]);
}

proof fn lemma_expression_terms_4_1()
    ensures
        real_harmonic_expression(4u32, 1i32) matches Some(e) && polynomial_terms(text_tokens(e)) == seq![(1int, 1int, 1int, 0int, 3int)],
{
    reveal_strlit("z³x");
    reveal_with_fuel(scan_from, 11);
    let e = real_harmonic_expression(4u32, 1i32)->0;
    assert(text_tokens(e) =~= seq![(false, 'z'), (true, '3'), (false, 'x')]);
    assert(polynomial_terms(text_tokens(e)) =~= seq![(1int, 1int, 1int, 0int, 3int)]);
}

proof fn lemma_expression_terms_4_2()
    ensures
        real_harmonic_expression(4u32, 2i32) matches Some(e) && polynomial_terms(text_tokens(e)) == seq![(1int, 1int, 2int, 0int, 2int), (-1int, 1int, 0int, 2int, 2int)],
{
    reveal_strlit("z²(x²−y²)");
    reveal_with_fuel(scan_from, 11);
    let e = real_harmonic_expression(4u32, 2i32)->0;
    assert(text_tokens(e) =~= seq![(false, 'z'), (true, '2'), (false, '('), (false, 'x'), (true, '2'), (false, '−'), (false, 'y'), (true, '2'), (false, ')')]);
    assert(polynomial_terms(text_tokens(e)) =~= seq![(1int, 1int, 2int, 0int, 2int), (-1int, 1int, 0int, 2int, 2int)]);
}

proof fn lemma_expression_terms_4_3()
    ensures
        real_harmonic_expression(4u32, 3i32) matches Some(e) && polynomial_terms(text_tokens(e)) == seq![(1int, 1int, 3int, 0int, 1int)],
{
    reveal_strlit("zx³");
    reveal_with_fuel(scan_from, 11);
    let e = real_harmonic_expression(4u32, 3i32)->0;
    assert(text_tokens(e) =~= seq![(false, 'z'), (false, 'x'), (true, '3')]);
    assert(polynomial_terms(text_tokens(e)) =~= seq![(1int, 1int, 3int, 0int, 1int)]);
}

proof fn lemma_expression_terms_4_4()
    ensures
        real_harmonic_expression(4u32, 4i32) matches Some(e) && polynomial_terms(text_tokens(e)) == seq![(1int, 1int, 4int, 0int, 0int), (1int, 1int, 0int, 4int, 0int)],
{
    reveal_strlit("x⁴+y⁴");
    reveal_with_fuel(scan_from, 11);
    let e = real_harmonic_expression(4u32, 4i32)->0;
    assert(text_tokens(e) =~= seq![(false, 'x'), (true, '4'), (false, '+'), (false, 'y'), (true, '4')]);
    assert(polynomial_terms(text_tokens(e)) =~= seq![(1int, 1int, 4int, 0int, 0int), (1int, 1int, 0int, 4int, 0int)]);
}

/// The expression of the real spherical harmonic `S_lm` (`l <= 4`, `|m| <= l`) writes a
/// polynomial in `x`, `y` and `z` whose every term is of degree `l` and has the symmetry of
/// `S_lm` (see [`fits_harmonic`]).
pub proof fn lemma_expression_terms(l: u32, m: i32)
    requires
        l <= 4,
        abs(m as int) <= l,
    ensures
        real_harmonic_expression(l, m) matches Some(e) && polynomial_terms(text_tokens(e)).len() > 0
            && forall|i: int|
            0 <= i < polynomial_terms(text_tokens(e)).len() ==> fits_harmonic(
                #[trigger] polynomial_terms(text_tokens(e))[i],
                l as int,
                m as int,
            ),
{
    if l == 0 && m == 0 {
        lemma_expression_terms_0_0();
    } else if l == 1 && m == -1 {
        lemma_expression_terms_1_neg1();
    } else if l == 1 && m == 0 {
        lemma_expression_terms_1_0();
    } else if l == 1 && m == 1 {
        lemma_expression_terms_1_1();
    } else if l == 2 && m == -2 {
        lemma_expression_terms_2_neg2();
    } else if l == 2 && m == -1 {
        lemma_expression_terms_2_neg1();
    } else if l == 2 && m == 0 {
        lemma_expression_terms_2_0();
    } else if l == 2 && m == 1 {
        lemma_expression_terms_2_1();
    } else if l == 2 && m == 2 {
        lemma_expression_terms_2_2();
    } else if l == 3 && m == -3 {
        lemma_expression_terms_3_neg3();
    } else if l == 3 && m == -2 {
        lemma_expression_terms_3_neg2();
    } else if l == 3 && m == -1 {
        lemma_expression_terms_3_neg1();
    } else if l == 3 && m == 0 {
        lemma_expression_terms_3_0();
    } else if l == 3 && m == 1 {
        lemma_expression_terms_3_1();
    } else if l == 3 && m == 2 {
        lemma_expression_terms_3_2();
    } else if l == 3 && m == 3 {
        lemma_expression_terms_3_3();
    } else if l == 4 && m == -4 {
        lemma_expression_terms_4_neg4();
    } else if l == 4 && m == -3 {
        lemma_expression_terms_4_neg3();
    } else if l == 4 && m == -2 {
        lemma_expression_terms_4_neg2();
    } else if l == 4 && m == -1 {
        lemma_expression_terms_4_neg1();
    } else if l == 4 && m == 0 {
        lemma_expression_terms_4_0();
    } else if l == 4 && m == 1 {
        lemma_expression_terms_4_1();
    } else if l == 4 && m == 2 {
        lemma_expression_terms_4_2();
    } else if l == 4 && m == 3 {
        lemma_expression_terms_4_3();
    } else if l == 4 && m == 4 {
        lemma_expression_terms_4_4();
    }
}

/// The plain-text expression of `S_lm` and its Cartesian expression with superscript runs
/// write the same polynomial: the same terms, with the same signs and coefficients, in the
/// same order.
pub proof fn lemma_expression_matches_cartesian(l: u32, m: i32)
    requires
        l <= 4,
        abs(m as int) <= l,
    ensures
        real_harmonic_expression(l, m) matches Some(e) && cartesian_runs(l, m) matches Some(r)
            && polynomial_terms(text_tokens(e)) == polynomial_terms(runs_tokens(r)),
{
    if l == 0 && m == 0 {
        lemma_expression_terms_0_0();
        crate::numerics::special::spherical_harmonics::lemma_cartesian_terms_0_0();
    } else if l == 1 && m == -1 {
        lemma_expression_terms_1_neg1();
        crate::numerics::special::spherical_harmonics::lemma_cartesian_terms_1_neg1();
    } else if l == 1 && m == 0 {
        lemma_expression_terms_1_0();
        crate::numerics::special::spherical_harmonics::lemma_cartesian_terms_1_0();
    } else if l == 1 && m == 1 {
        lemma_expression_terms_1_1();
        crate::numerics::special::spherical_harmonics::lemma_cartesian_terms_1_1();
    } else if l == 2 && m == -2 {
        lemma_expression_terms_2_neg2();
        crate::numerics::special::spherical_harmonics::lemma_cartesian_terms_2_neg2();
    } else if l == 2 && m == -1 {
        lemma_expression_terms_2_neg1();
        crate::numerics::special::spherical_harmonics::lemma_cartesian_terms_2_neg1();
    } else if l == 2 && m == 0 {
        lemma_expression_terms_2_0();
        crate::numerics::special::spherical_harmonics::lemma_cartesian_terms_2_0();
    } else if l == 2 && m == 1 {
        lemma_expression_terms_2_1();
        crate::numerics::special::spherical_harmonics::lemma_cartesian_terms_2_1();
    } else if l == 2 && m == 2 {
        lemma_expression_terms_2_2();
        crate::numerics::special::spherical_harmonics::lemma_cartesian_terms_2_2();
    } else if l == 3 && m == -3 {
        lemma_expression_terms_3_neg3();
        crate::numerics::special::spherical_harmonics::lemma_cartesian_terms_3_neg3();
    } else if l == 3 && m == -2 {
        lemma_expression_terms_3_neg2();
        crate::numerics::special::spherical_harmonics::lemma_cartesian_terms_3_neg2();
    } else if l == 3 && m == -1 {
        lemma_expression_terms_3_neg1();
        crate::numerics::special::spherical_harmonics::lemma_cartesian_terms_3_neg1();
    } else if l == 3 && m == 0 {
        lemma_expression_terms_3_0();
        crate::numerics::special::spherical_harmonics::lemma_cartesian_terms_3_0();
    } else if l == 3 && m == 1 {
        lemma_expression_terms_3_1();
        crate::numerics::special::spherical_harmonics::lemma_cartesian_terms_3_1();
    } else if l == 3 && m == 2 {
        lemma_expression_terms_3_2();
        crate::numerics::special::spherical_harmonics::lemma_cartesian_terms_3_2();
    } else if l == 3 && m == 3 {
        lemma_expression_terms_3_3();
        crate::numerics::special::spherical_harmonics::lemma_cartesian_terms_3_3();
    } else if l == 4 && m == -4 {
        lemma_expression_terms_4_neg4();
        crate::numerics::special::spherical_harmonics::lemma_cartesian_terms_4_neg4();
    } else if l == 4 && m == -3 {
        lemma_expression_terms_4_neg3();
        crate::numerics::special::spherical_harmonics::lemma_cartesian_terms_4_neg3();
    } else if l == 4 && m == -2 {
        lemma_expression_terms_4_neg2();
        crate::numerics::special::spherical_harmonics::lemma_cartesian_terms_4_neg2();
    } else if l == 4 && m == -1 {
        lemma_expression_terms_4_neg1();
        crate::numerics::special::spherical_harmonics::lemma_cartesian_terms_4_neg1();
    } else if l == 4 && m == 0 {
        lemma_expression_terms_4_0();
        crate::numerics::special::spherical_harmonics::lemma_cartesian_terms_4_0();
    } else if l == 4 && m == 1 {
        lemma_expression_terms_4_1();
        crate::numerics::special::spherical_harmonics::lemma_cartesian_terms_4_1();
    } else if l == 4 && m == 2 {
        lemma_expression_terms_4_2();
        crate::numerics::special::spherical_harmonics::lemma_cartesian_terms_4_2();
    } else if l == 4 && m == 3 {
        lemma_expression_terms_4_3();
        crate::numerics::special::spherical_harmonics::lemma_cartesian_terms_4_3();
    } else if l == 4 && m == 4 {
        lemma_expression_terms_4_4();
        crate::numerics::special::spherical_harmonics::lemma_cartesian_terms_4_4();
    }
}

/// Implementation of the radial part of the hydrogenic wavefunctions, `R_nl(r)`; its evaluation
/// is floating-point arithmetic, done outside this library.
pub struct RadialWavefunction;

/// Implementation of the spherical harmonics, `Y_l^m(θ,φ)`, including the Condon-Shortley phase.
pub struct SphericalHarmonic;

/// Implementation of the real spherical harmonics, `S_lm(θ,φ)`.
///
/// See [Blanco et al. 1997](https://doi.org/10.1016/S0166-1280(97)00185-1) for more information.
pub struct RealSphericalHarmonic;

impl RealSphericalHarmonic {
    /// Give the (abbreviated) mathematical expression for the linear combination that corresponds
    /// to a certain set of `l` and `m` quantum numbers, as a `&str`. Superscripts are represented
    /// with Unicode superscript symbols.
    ///
    /// This is only implemented for `l` up to 4 and returns `None` for larger values.
    ///
    /// See <https://en.wikipedia.org/wiki/Table_of_spherical_harmonics#Real_spherical_harmonics>.
    pub fn expression(lm: &Lm) -> (r: Option<&'static str>)
        ensures
            r is Some <==> lm@.0 <= 4,
            r matches Some(s) ==> real_harmonic_expression(lm@.0, lm@.1) == Some(s@),
    {
        let l = lm.l();
        let m = lm.m();
        match l {
            0 => Some(match m {
                0 => "",
                _ => {
                    proof {
                        assert(false);
                    }
                    ""
                },
            }),
            1 => Some(match m {
                -1 => "y",
                0 => "z",
                1 => "x",
                _ => {
                    proof {
                        assert(false);
                    }
                    ""
                },
            }),
            2 => Some(match m {
                -2 => "xy",
                -1 => "yz",
                0 => "z²",
                1 => "xz",
                2 => "x²−y²",
                _ => {
                    proof {
                        assert(false);
                    }
                    ""
                },
            }),
            3 => Some(match m {
                -3 => "y(3x²−y²)",
                -2 => "xyz",
                -1 => "yz²",
                0 => "z³",
                1 => "xz²",
                2 => "z(x²−y²)",
                3 => "x(x²−3y²)",
                _ => {
                    proof {
                        assert(false);
                    }
                    ""
                },
            }),
            4 => Some(match m {
                -4 => "xy(x²−y²)",
                -3 => "zy³",
                -2 => "z²xy",
                -1 => "z³y",
                0 => "z⁴",
                1 => "z³x",
                2 => "z²(x²−y²)",
                3 => "zx³",
                4 => "x⁴+y⁴",
                _ => {
                    proof {
                        assert(false);
                    }
                    ""
                },
            }),
            _ => None,
        }
    }
}

} // verus!
