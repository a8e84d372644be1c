//! The spherical harmonics and the Cartesian expressions that name the real ones.
use vstd::prelude::*;
use crate::orbital::quantum_numbers::{Lm, abs};
use crate::utils::sup_sub_string::{SupSubKind, SupSubString};

verus! {

/// The (abbreviated) Cartesian expression of the real spherical harmonic `S_lm` as runs of
/// normal and superscript text, for `l <= 4`.
pub open spec fn cartesian_runs(l: u32, m: i32) -> Option<Seq<(SupSubKind, Seq<char>)>> {
    if l > 4 {
        None
    } else if l == 0 && m == 0 {
        Some(seq![(SupSubKind::Normal, ""@)])
    } else if l == 1 && m == -1 {
        Some(seq![(SupSubKind::Normal, "y"@)])
    } else if l == 1 && m == 0 {
        Some(seq![(SupSubKind::Normal, "z"@)])
    } else if l == 1 && m == 1 {
        Some(seq![(SupSubKind::Normal, "x"@)])
    } else if l == 2 && m == -2 {
        Some(seq![(SupSubKind::Normal, "xy"@)])
    } else if l == 2 && m == -1 {
        Some(seq![(SupSubKind::Normal, "yz"@)])
    } else if l == 2 && m == 0 {
        Some(seq![(SupSubKind::Normal, "z"@), (SupSubKind::Superscript, "2"@)])
    } else if l == 2 && m == 1 {
        Some(seq![(SupSubKind::Normal, "xz"@)])
    } else if l == 2 && m == 2 {
        Some(seq![(SupSubKind::Normal, "x"@), (SupSubKind::Superscript, "2"@), (SupSubKind::Normal, "−y"@), (SupSubKind::Superscript, "2"@)])
    } else if l == 3 && m == -3 {
        Some(seq![(SupSubKind::Normal, "y(3x"@), (SupSubKind::Superscript, "2"@), (SupSubKind::Normal, "−y"@), (SupSubKind::Superscript, "2"@), (SupSubKind::Normal, ")"@)])
    } else if l == 3 && m == -2 {
        Some(seq![(SupSubKind::Normal, "xyz"@)])
    } else if l == 3 && m == -1 {
        Some(seq![(SupSubKind::Normal, "yz"@), (SupSubKind::Superscript, "2"@)])
    } else if l == 3 && m == 0 {
        Some(seq![(SupSubKind::Normal, "z"@), (SupSubKind::Superscript, "3"@)])
    } else if l == 3 && m == 1 {
        Some(seq![(SupSubKind::Normal, "xz"@), (SupSubKind::Superscript, "2"@)])
    } else if l == 3 && m == 2 {
        Some(seq![(SupSubKind::Normal, "z(x"@), (SupSubKind::Superscript, "2"@), (SupSubKind::Normal, "−y"@), (SupSubKind::Superscript, "2"@), (SupSubKind::Normal, ")"@)])
    } else if l == 3 && m == 3 {
        Some(seq![(SupSubKind::Normal, "x(x"@), (SupSubKind::Superscript, "2"@), (SupSubKind::Normal, "−3y"@), (SupSubKind::Superscript, "2"@), (SupSubKind::Normal, ")"@)])
    } else if l == 4 && m == -4 {
        Some(seq![(SupSubKind::Normal, "xy(x"@), (SupSubKind::Superscript, "2"@), (SupSubKind::Normal, "−y"@), (SupSubKind::Superscript, "2"@), (SupSubKind::Normal, ")"@)])
    } else if l == 4 && m == -3 {
        Some(seq![(SupSubKind::Normal, "y"@), (SupSubKind::Superscript, "3"@), (SupSubKind::Normal, "z"@)])
    } else if l == 4 && m == -2 {
        Some(seq![(SupSubKind::Normal, "xyz"@), (SupSubKind::Superscript, "2"@)])
    } else if l == 4 && m == -1 {
        Some(seq![(SupSubKind::Normal, "yz"@), (SupSubKind::Superscript, "3"@)])
    } else if l == 4 && m == 0 {
        Some(seq![(SupSubKind::Normal, "z"@), (SupSubKind::Superscript, "4"@)])
    } else if l == 4 && m == 1 {
        Some(seq![(SupSubKind::Normal, "xz"@), (SupSubKind::Superscript, "3"@)])
    } else if l == 4 && m == 2 {
        Some(seq![(SupSubKind::Normal, "z"@), (SupSubKind::Superscript, "2"@), (SupSubKind::Normal, "(x"@), (SupSubKind::Superscript, "2"@), (SupSubKind::Normal, "−y"@), (SupSubKind::Superscript, "2"@), (SupSubKind::Normal, ")"@)])
    } else if l == 4 && m == 3 {
        Some(seq![(SupSubKind::Normal, "x"@), (SupSubKind::Superscript, "3"@), (SupSubKind::Normal, "z"@)])
    } else if l == 4 && m == 4 {
        Some(seq![(SupSubKind::Normal, "x"@), (SupSubKind::Superscript, "4"@), (SupSubKind::Normal, "+y"@), (SupSubKind::Superscript, "4"@)])
    } else {
        None
    }
}

/// A term of a polynomial in `x`, `y` and `z`: its sign (`1` or `-1`), its coefficient, and its
/// exponents of `x`, `y` and `z`.
pub type Term = (int, int, int, int, int);

/// The state of reading an expression from left to right: the terms completed so far, the factor
/// before an opening parenthesis, the term being read (its coefficient `0` while no digit has
/// been read), the variable read last (`0`, `1`, `2` for `x`, `y`, `z`), and whether a
/// parenthesis is open or has been closed.
pub struct TermScan {
    pub terms: Seq<Term>,
    pub prefix: Term,
    pub cur: Term,
    pub last_var: int,
    pub in_group: bool,
    pub closed: bool,
}

/// The coefficient of a term as written: `1` when no digit was written.
pub open spec fn written_coefficient(c: int) -> int {
    if c == 0 {
        1
    } else {
        c
    }
}

/// The term being read, multiplied by the factor before the open parenthesis if there is one.
pub open spec fn scanned_term(st: TermScan) -> Term {
    let c = st.cur;
    if st.in_group {
        let p = st.prefix;
        (
            p.0 * c.0,
            written_coefficient(p.1) * written_coefficient(c.1),
            p.2 + c.2,
            p.3 + c.3,
            p.4 + c.4,
        )
    } else {
        (c.0, written_coefficient(c.1), c.2, c.3, c.4)
    }
}

/// Read one token of an expression: a character, and whether it is a superscript (an exponent
/// of the variable read last).
pub open spec fn scan_token(st: TermScan, tok: (bool, char)) -> TermScan {
    let (sup, c) = tok;
    let d = (c as int) - ('0' as int);
    let cur = st.cur;
    if sup {
        let e = d - 1;
        TermScan {
            cur: if st.last_var == 0 {
                (cur.0, cur.1, cur.2 + e, cur.3, cur.4)
            } else if st.last_var == 1 {
                (cur.0, cur.1, cur.2, cur.3 + e, cur.4)
            } else {
                (cur.0, cur.1, cur.2, cur.3, cur.4 + e)
            },
            ..st
        }
    } else if c == 'x' {
        TermScan { cur: (cur.0, cur.1, cur.2 + 1, cur.3, cur.4), last_var: 0, ..st }
    } else if c == 'y' {
        TermScan { cur: (cur.0, cur.1, cur.2, cur.3 + 1, cur.4), last_var: 1, ..st }
    } else if c == 'z' {
        TermScan { cur: (cur.0, cur.1, cur.2, cur.3, cur.4 + 1), last_var: 2, ..st }
    } else if '0' <= c <= '9' {
        TermScan { cur: (cur.0, cur.1 * 10 + d, cur.2, cur.3, cur.4), ..st }
    } else if c == '(' {
        TermScan { prefix: cur, cur: (1, 0, 0, 0, 0), in_group: true, ..st }
    } else if c == '+' || c == '−' {
        TermScan {
            terms: st.terms.push(scanned_term(st)),
            cur: (if c == '+' {
                1
            } else {
                -1
            }, 0, 0, 0, 0),
            ..st
        }
    } else if c == ')' {
        TermScan {
            terms: st.terms.push(scanned_term(st)),
            cur: (1, 0, 0, 0, 0),
            in_group: false,
            closed: true,
            ..st
        }
    } else {
        st
    }
}

/// The state after reading the tokens from position `i` on, from the state `st`.
pub open spec fn scan_from(toks: Seq<(bool, char)>, i: int, st: TermScan) -> TermScan
    decreases toks.len() - i,
{
    if i < 0 || i >= toks.len() {
        st
    } else {
        scan_from(toks, i + 1, scan_token(st, toks[i]))
    }
}

/// The terms of the polynomial that an expression writes (ex. `z(x²−y²)`: `+zx²`, `−zy²`).
pub open spec fn polynomial_terms(toks: Seq<(bool, char)>) -> Seq<Term> {
    let st = scan_from(
        toks,
        0,
        TermScan {
            terms: Seq::empty(),
            prefix: (1, 0, 0, 0, 0),
            cur: (1, 0, 0, 0, 0),
            last_var: 0,
            in_group: false,
            closed: false,
        },
    );
    if st.closed {
        st.terms
    } else {
        st.terms.push(scanned_term(st))
    }
}

/// The tokens of runs of text: each character, marked when it is in a superscript run.
pub open spec fn runs_tokens(runs: Seq<(SupSubKind, Seq<char>)>) -> Seq<(bool, char)>
    decreases runs.len(),
{
    if runs.len() == 0 {
        Seq::empty()
    } else {
        runs_tokens(runs.drop_last()) + runs.last().1.map_values(
            |c: char| (runs.last().0 == SupSubKind::Superscript, c),
        )
    }
}

/// The parity of the exponent of `x` in every term of the real spherical harmonic `S_lm`
/// (`cos(mφ)` for `m >= 0`, `sin(|m|φ)` for `m < 0`).
pub open spec fn x_parity(m: int) -> int {
    if m >= 0 {
        abs(m) % 2
    } else {
        (abs(m) + 1) % 2
    }
}

/// `t` is a term that the Cartesian form of `S_lm` may hold: of degree `l`, odd in `y` exactly
/// when `m < 0`, of parity `l - |m|` in `z` and of parity [`x_parity`] in `x`.
pub open spec fn fits_harmonic(t: Term, l: int, m: int) -> bool {
    &&& t.2 >= 0 && t.3 >= 0 && t.4 >= 0
    &&& t.2 + t.3 + t.4 == l
    &&& t.2 % 2 == x_parity(m)
    &&& t.3 % 2 == (if m < 0 {
        1int
    } else {
        0
    })
    &&& t.4 % 2 == (l - abs(m)) % 2
    &&& t.1 > 0
    &&& (t.0 == 1 || t.0 == -1)
}

pub(crate) proof fn lemma_cartesian_terms_0_0()
    ensures
        cartesian_runs(0u32, 0i32) matches Some(r) && polynomial_terms(runs_tokens(r)) == seq![(1int, 1int, 0int, 0int, 0int)],
{
    reveal_strlit("");
    reveal_with_fuel(runs_tokens, 8);
    reveal_with_fuel(scan_from, 11);
    let r = cartesian_runs(0u32, 0i32)->0;
    assert(runs_tokens(r) =~= Seq::<(bool, char)>::empty());
    assert(polynomial_terms(runs_tokens(r)) =~= seq![(1int, 1int, 0int, 0int, 0int)]);
}

pub(crate) proof fn lemma_cartesian_terms_1_neg1()
    ensures
        cartesian_runs(1u32, -1i32) matches Some(r) && polynomial_terms(runs_tokens(r)) == seq![(1int, 1int, 0int, 1int, 0int)],
{
    reveal_strlit("y");
    reveal_with_fuel(runs_tokens, 8);
    reveal_with_fuel(scan_from, 11);
    let r = cartesian_runs(1u32, -1i32)->0;
    assert(runs_tokens(r) =~= seq![(false, 'y')]);
    assert(polynomial_terms(runs_tokens(r)) =~= seq![(1int, 1int, 0int, 1int, 0int)]);
}

pub(crate) proof fn lemma_cartesian_terms_1_0()
    ensures
        cartesian_runs(1u32, 0i32) matches Some(r) && polynomial_terms(runs_tokens(r)) == seq![(1int, 1int, 0int, 0int, 1int)],
{
    reveal_strlit("z");
    reveal_with_fuel(runs_tokens, 8);
    reveal_with_fuel(scan_from, 11);
    let r = cartesian_runs(1u32, 0i32)->0;
    assert(runs_tokens(r) =~= seq![(false, 'z')]);
    assert(polynomial_terms(runs_tokens(r)) =~= seq![(1int, 1int, 0int, 0int, 1int)]);
}

pub(crate) proof fn lemma_cartesian_terms_1_1()
    ensures
        cartesian_runs(1u32, 1i32) matches Some(r) && polynomial_terms(runs_tokens(r)) == seq![(1int, 1int, 1int, 0int, 0int)],
{
    reveal_strlit("x");
    reveal_with_fuel(runs_tokens, 8);
    reveal_with_fuel(scan_from, 11);
    let r = cartesian_runs(1u32, 1i32)->0;
    assert(runs_tokens(r) =~= seq![(false, 'x')]);
    assert(polynomial_terms(runs_tokens(r)) =~= seq![(1int, 1int, 1int, 0int, 0int)]);
}

pub(crate) proof fn lemma_cartesian_terms_2_neg2()
    ensures
        cartesian_runs(2u32, -2i32) matches Some(r) && polynomial_terms(runs_tokens(r)) == seq![(1int, 1int, 1int, 1int, 0int)],
{
    reveal_strlit("xy");
    reveal_with_fuel(runs_tokens, 8);
    reveal_with_fuel(scan_from, 11);
    let r = cartesian_runs(2u32, -2i32)->0;
    assert(runs_tokens(r) =~= seq![(false, 'x'), (false, 'y')]);
    assert(polynomial_terms(runs_tokens(r)) =~= seq![(1int, 1int, 1int, 1int, 0int)]);
}

pub(crate) proof fn lemma_cartesian_terms_2_neg1()
    ensures
        cartesian_runs(2u32, -1i32) matches Some(r) && polynomial_terms(runs_tokens(r)) == seq![(1int, 1int, 0int, 1int, 1int)],
{
    reveal_strlit("yz");
    reveal_with_fuel(runs_tokens, 8);
    reveal_with_fuel(scan_from, 11);
    let r = cartesian_runs(2u32, -1i32)->0;
    assert(runs_tokens(r) =~= seq![(false, 'y'), (false, 'z')]);
    assert(polynomial_terms(runs_tokens(r)) =~= seq![(1int, 1int, 0int, 1int, 1int)]);
}

pub(crate) proof fn lemma_cartesian_terms_2_0()
    ensures
        cartesian_runs(2u32, 0i32) matches Some(r) && polynomial_terms(runs_tokens(r)) == seq![(1int, 1int, 0int, 0int, 2int)],
{
    reveal_strlit("2");
    reveal_strlit("z");
    reveal_with_fuel(runs_tokens, 8);
    reveal_with_fuel(scan_from, 11);
    let r = cartesian_runs(2u32, 0i32)->0;
    assert(runs_tokens(r) =~= seq![(false, 'z'), (true, '2')]);
    assert(polynomial_terms(runs_tokens(r)) =~= seq![(1int, 1int, 0int, 0int, 2int)]);
}

pub(crate) proof fn lemma_cartesian_terms_2_1()
    ensures
        cartesian_runs(2u32, 1i32) matches Some(r) && polynomial_terms(runs_tokens(r)) == seq![(1int, 1int, 1int, 0int, 1int)],
{
    reveal_strlit("xz");
    reveal_with_fuel(runs_tokens, 8);
    reveal_with_fuel(scan_from, 11);
    let r = cartesian_runs(2u32, 1i32)->0;
    assert(runs_tokens(r) =~= seq![(false, 'x'), (false, 'z')]);
    assert(polynomial_terms(runs_tokens(r)) =~= seq![(1int, 1int, 1int, 0int, 1int)]);
}

pub(crate) proof fn lemma_cartesian_terms_2_2()
    ensures
        cartesian_runs(2u32, 2i32) matches Some(r) && polynomial_terms(runs_tokens(r)) == seq![(1int, 1int, 2int, 0int, 0int), (-1int, 1int, 0int, 2int, 0int)],
{
    reveal_strlit("2");
    reveal_strlit("x");
    reveal_strlit("−y");
    reveal_with_fuel(runs_tokens, 8);
    reveal_with_fuel(scan_from, 11);
    let r = cartesian_runs(2u32, 2i32)->0;
    assert(runs_tokens(r) =~= seq![(false, 'x'), (true, '2'), (false, '−'), (false, 'y'), (true, '2')]);
    assert(polynomial_terms(runs_tokens(r)) =~= seq![(1int, 1int, 2int, 0int, 0int), (-1int, 1int, 0int, 2int, 0int)]);
}

pub(crate) proof fn lemma_cartesian_terms_3_neg3()
    ensures
        cartesian_runs(3u32, -3i32) matches Some(r) && polynomial_terms(runs_tokens(r)) == seq![(1int, 3int, 2int, 1int, 0int), (-1int, 1int, 0int, 3int, 0int)],
{
    reveal_strlit(")");
    reveal_strlit("2");
    reveal_strlit("y(3x");
    reveal_strlit("−y");
    reveal_with_fuel(runs_tokens, 8);
    reveal_with_fuel(scan_from, 11);
    let r = cartesian_runs(3u32, -3i32)->0;
    assert(runs_tokens(r) =~= seq![(false, 'y'), (false, '('), (false, '3'), (false, 'x'), (true, '2'), (false, '−'), (false, 'y'), (true, '2'), (false, ')')]);
    assert(polynomial_terms(runs_tokens(r)) =~= seq![(1int, 3int, 2int, 1int, 0int), (-1int, 1int, 0int, 3int, 0int)]);
}

pub(crate) proof fn lemma_cartesian_terms_3_neg2()
    ensures
        cartesian_runs(3u32, -2i32) matches Some(r) && polynomial_terms(runs_tokens(r)) == seq![(1int, 1int, 1int, 1int, 1int)],
{
    reveal_strlit("xyz");
    reveal_with_fuel(runs_tokens, 8);
    reveal_with_fuel(scan_from, 11);
    let r = cartesian_runs(3u32, -2i32)->0;
    assert(runs_tokens(r) =~= seq![(false, 'x'), (false, 'y'), (false, 'z')]);
    assert(polynomial_terms(runs_tokens(r)) =~= seq![(1int, 1int, 1int, 1int, 1int)]);
}

pub(crate) proof fn lemma_cartesian_terms_3_neg1()
    ensures
        cartesian_runs(3u32, -1i32) matches Some(r) && polynomial_terms(runs_tokens(r)) == seq![(1int, 1int, 0int, 1int, 2int)],
{
    reveal_strlit("2");
    reveal_strlit("yz");
    reveal_with_fuel(runs_tokens, 8);
    reveal_with_fuel(scan_from, 11);
    let r = cartesian_runs(3u32, -1i32)->0;
    assert(runs_tokens(r) =~= seq![(false, 'y'), (false, 'z'), (true, '2')]);
    assert(polynomial_terms(runs_tokens(r)) =~= seq![(1int, 1int, 0int, 1int, 2int)]);
}

pub(crate) proof fn lemma_cartesian_terms_3_0()
    ensures
        cartesian_runs(3u32, 0i32) matches Some(r) && polynomial_terms(runs_tokens(r)) == seq![(1int, 1int, 0int, 0int, 3int)],
{
    reveal_strlit("3");
    reveal_strlit("z");
    reveal_with_fuel(runs_tokens, 8);
    reveal_with_fuel(scan_from, 11);
    let r = cartesian_runs(3u32, 0i32)->0;
    assert(runs_tokens(r) =~= seq![(false, 'z'), (true, '3')]);
    assert(polynomial_terms(runs_tokens(r)) =~= seq![(1int, 1int, 0int, 0int, 3int)]);
}

pub(crate) proof fn lemma_cartesian_terms_3_1()
    ensures
        cartesian_runs(3u32, 1i32) matches Some(r) && polynomial_terms(runs_tokens(r)) == seq![(1int, 1int, 1int, 0int, 2int)],
{
    reveal_strlit("2");
    reveal_strlit("xz");
    reveal_with_fuel(runs_tokens, 8);
    reveal_with_fuel(scan_from, 11);
    let r = cartesian_runs(3u32, 1i32)->0;
    assert(runs_tokens(r) =~= seq![(false, 'x'), (false, 'z'), (true, '2')]);
    assert(polynomial_terms(runs_tokens(r)) =~= seq![(1int, 1int, 1int, 0int, 2int)]);
}

pub(crate) proof fn lemma_cartesian_terms_3_2()
    ensures
        cartesian_runs(3u32, 2i32) matches Some(r) && polynomial_terms(runs_tokens(r)) == seq![(1int, 1int, 2int, 0int, 1int), (-1int, 1int, 0int, 2int, 1int)],
{
    reveal_strlit(")");
    reveal_strlit("2");
    reveal_strlit("z(x");
    reveal_strlit("−y");
    reveal_with_fuel(runs_tokens, 8);
    reveal_with_fuel(scan_from, 11);
    let r = cartesian_runs(3u32, 2i32)->0;
    assert(runs_tokens(r) =~= seq![(false, 'z'), (false, '('), (false, 'x'), (true, '2'), (false, '−'), (false, 'y'), (true, '2'), (false, ')')]);
    assert(polynomial_terms(runs_tokens(r)) =~= seq![(1int, 1int, 2int, 0int, 1int), (-1int, 1int, 0int, 2int, 1int)]);
}

pub(crate) proof fn lemma_cartesian_terms_3_3()
    ensures
        cartesian_runs(3u32, 3i32) matches Some(r) && polynomial_terms(runs_tokens(r)) == seq![(1int, 1int, 3int, 0int, 0int), (-1int, 3int, 1int, 2int, 0int)],
{
    reveal_strlit(")");
    reveal_strlit("2");
    reveal_strlit("x(x");
    reveal_strlit("−3y");
    reveal_with_fuel(runs_tokens, 8);
    reveal_with_fuel(scan_from, 11);
    let r = cartesian_runs(3u32, 3i32)->0;
    assert(runs_tokens(r) =~= seq![(false, 'x'), (false, '('), (false, 'x'), (true, '2'), (false, '−'), (false, '3'), (false, 'y'), (true, '2'), (false, ')')]);
    assert(polynomial_terms(runs_tokens(r)) =~= seq![(1int, 1int, 3int, 0int, 0int), (-1int, 3int, 1int, 2int, 0int)]);
}

pub(crate) proof fn lemma_cartesian_terms_4_neg4()
    ensures
        cartesian_runs(4u32, -4i32) matches Some(r) && polynomial_terms(runs_tokens(r)) == seq![(1int, 1int, 3int, 1int, 0int), (-1int, 1int, 1int, 3int, 0int)],
{
    reveal_strlit(")");
    reveal_strlit("2");
    reveal_strlit("xy(x");
    reveal_strlit("−y");
    reveal_with_fuel(runs_tokens, 8);
    reveal_with_fuel(scan_from, 11);
    let r = cartesian_runs(4u32, -4i32)->0;
    assert(runs_tokens(r) =~= seq![(false, 'x'), (false, 'y'), (false, '('), (false, 'x'), (true, '2'), (false, '−'), (false, 'y'), (true, '2'), (false, ')')]);
    assert(polynomial_terms(runs_tokens(r)) =~= seq![(1int, 1int, 3int, 1int, 0int), (-1int, 1int, 1int, 3int, 0int)]);
}

pub(crate) proof fn lemma_cartesian_terms_4_neg3()
    ensures
        cartesian_runs(4u32, -3i32) matches Some(r) && polynomial_terms(runs_tokens(r)) == seq![(1int, 1int, 0int, 3int, 1int)],
{
    reveal_strlit("3");
    reveal_strlit("y");
    reveal_strlit("z");
    reveal_with_fuel(runs_tokens, 8);
    reveal_with_fuel(scan_from, 11);
    let r = cartesian_runs(4u32, -3i32)->0;
    assert(runs_tokens(r) =~= seq![(false, 'y'), (true, '3'), (false, 'z')]);
    assert(polynomial_terms(runs_tokens(r)) =~= seq![(1int, 1int, 0int, 3int, 1int)]);
}

pub(crate) proof fn lemma_cartesian_terms_4_neg2()
    ensures
        cartesian_runs(4u32, -2i32) matches Some(r) && polynomial_terms(runs_tokens(r)) == seq![(1int, 1int, 1int, 1int, 2int)],
{
    reveal_strlit("2");
    reveal_strlit("xyz");
    reveal_with_fuel(runs_tokens, 8);
    reveal_with_fuel(scan_from, 11);
    let r = cartesian_runs(4u32, -2i32)->0;
    assert(runs_tokens(r) =~= seq![(false, 'x'), (false, 'y'), (false, 'z'), (true, '2')]);
    assert(polynomial_terms(runs_tokens(r)) =~= seq![(1int, 1int, 1int, 1int, 2int)]);
}

pub(crate) proof fn lemma_cartesian_terms_4_neg1()
    ensures
        cartesian_runs(4u32, -1i32) matches Some(r) && polynomial_terms(runs_tokens(r)) == seq![(1int, 1int, 0int, 1int, 3int)],
{
    reveal_strlit("3");
    reveal_strlit("yz");
    reveal_with_fuel(runs_tokens, 8);
    reveal_with_fuel(scan_from, 11);
    let r = cartesian_runs(4u32, -1i32)->0;
    assert(runs_tokens(r) =~= seq![(false, 'y'), (false, 'z'), (true, '3')]);
    assert(polynomial_terms(runs_tokens(r)) =~= seq![(1int, 1int, 0int, 1int, 3int)]);
}

pub(crate) proof fn lemma_cartesian_terms_4_0()
    ensures
        cartesian_runs(4u32, 0i32) matches Some(r) && polynomial_terms(runs_tokens(r)) == seq![(1int, 1int, 0int, 0int, 4int)],
{
    reveal_strlit("4");
    reveal_strlit("z");
    reveal_with_fuel(runs_tokens, 8);
    reveal_with_fuel(scan_from, 11);
    let r = cartesian_runs(4u32, 0i32)->0;
    assert(runs_tokens(r) =~= seq![(false, 'z'), (true, '4')]);
    assert(polynomial_terms(runs_tokens(r)) =~= seq![(1int, 1int, 0int, 0int, 4int)]);
}

pub(crate) proof fn lemma_cartesian_terms_4_1()
    ensures
        cartesian_runs(4u32, 1i32) matches Some(r) && polynomial_terms(runs_tokens(r)) == seq![(1int, 1int, 1int, 0int, 3int)],
{
    reveal_strlit("3");
    reveal_strlit("xz");
    reveal_with_fuel(runs_tokens, 8);
    reveal_with_fuel(scan_from, 11);
    let r = cartesian_runs(4u32, 1i32)->0;
    assert(runs_tokens(r) =~= seq![(false, 'x'), (false, 'z'), (true, '3')]);
    assert(polynomial_terms(runs_tokens(r)) =~= seq![(1int, 1int, 1int, 0int, 3int)]);
}

pub(crate) proof fn lemma_cartesian_terms_4_2()
    ensures
        cartesian_runs(4u32, 2i32) matches Some(r) && polynomial_terms(runs_tokens(r)) == seq![(1int, 1int, 2int, 0int, 2int), (-1int, 1int, 0int, 2int, 2int)],
{
    reveal_strlit("(x");
    reveal_strlit(")");
    reveal_strlit("2");
    reveal_strlit("z");
    reveal_strlit("−y");
    reveal_with_fuel(runs_tokens, 8);
    reveal_with_fuel(scan_from, 11);
    let r = cartesian_runs(4u32, 2i32)->0;
    assert(runs_tokens(r) =~= seq![(false, 'z'), (true, '2'), (false, '('), (false, 'x'), (true, '2'), (false, '−'), (false, 'y'), (true, '2'), (false, ')')]);
    assert(polynomial_terms(runs_tokens(r)) =~= seq![(1int, 1int, 2int, 0int, 2int), (-1int, 1int, 0int, 2int, 2int)]);
}

pub(crate) proof fn lemma_cartesian_terms_4_3()
    ensures
        cartesian_runs(4u32, 3i32) matches Some(r) && polynomial_terms(runs_tokens(r)) == seq![(1int, 1int, 3int, 0int, 1int)],
{
    reveal_strlit("3");
    reveal_strlit("x");
    reveal_strlit("z");
    reveal_with_fuel(runs_tokens, 8);
    reveal_with_fuel(scan_from, 11);
    let r = cartesian_runs(4u32, 3i32)->0;
    assert(runs_tokens(r) =~= seq![(false, 'x'), (true, '3'), (false, 'z')]);
    assert(polynomial_terms(runs_tokens(r)) =~= seq![(1int, 1int, 3int, 0int, 1int)]);
}

pub(crate) proof fn lemma_cartesian_terms_4_4()
    ensures
        cartesian_runs(4u32, 4i32) matches Some(r) && polynomial_terms(runs_tokens(r)) == seq![(1int, 1int, 4int, 0int, 0int), (1int, 1int, 0int, 4int, 0int)],
{
    reveal_strlit("+y");
    reveal_strlit("4");
    reveal_strlit("x");
    reveal_with_fuel(runs_tokens, 8);
    reveal_with_fuel(scan_from, 11);
    let r = cartesian_runs(4u32, 4i32)->0;
    assert(runs_tokens(r) =~= seq![(false, 'x'), (true, '4'), (false, '+'), (false, 'y'), (true, '4')]);
    assert(polynomial_terms(runs_tokens(r)) =~= seq![(1int, 1int, 4int, 0int, 0int), (1int, 1int, 0int, 4int, 0int)]);
}

/// The Cartesian expression of the real spherical harmonic `S_lm` (`l <= 4`, `|m| <= l`) writes a
/// polynomial in `x`, `y` and `z` whose every term is of degree `l` and has the symmetry of
/// `S_lm`: odd in `y` exactly when `m < 0` (`sin(|m|φ)` rather than `cos(mφ)`), of parity
/// `l - |m|` in `z`, and of the parity [`x_parity`] in `x`.
pub proof fn lemma_cartesian_terms(l: u32, m: i32)
    requires
        l <= 4,
        abs(m as int) <= l,
    ensures
        cartesian_runs(l, m) matches Some(r) && polynomial_terms(runs_tokens(r)).len() > 0
            && forall|i: int|
            0 <= i < polynomial_terms(runs_tokens(r)).len() ==> fits_harmonic(
                #[trigger] polynomial_terms(runs_tokens(r))[i],
                l as int,
                m as int,
            ),
{
    if l == 0 && m == 0 {
        lemma_cartesian_terms_0_0();
    } else if l == 1 && m == -1 {
        lemma_cartesian_terms_1_neg1();
    } else if l == 1 && m == 0 {
        lemma_cartesian_terms_1_0();
    } else if l == 1 && m == 1 {
        lemma_cartesian_terms_1_1();
    } else if l == 2 && m == -2 {
        lemma_cartesian_terms_2_neg2();
    } else if l == 2 && m == -1 {
        lemma_cartesian_terms_2_neg1();
    } else if l == 2 && m == 0 {
        lemma_cartesian_terms_2_0();
    } else if l == 2 && m == 1 {
        lemma_cartesian_terms_2_1();
    } else if l == 2 && m == 2 {
        lemma_cartesian_terms_2_2();
    } else if l == 3 && m == -3 {
        lemma_cartesian_terms_3_neg3();
    } else if l == 3 && m == -2 {
        lemma_cartesian_terms_3_neg2();
    } else if l == 3 && m == -1 {
        lemma_cartesian_terms_3_neg1();
    } else if l == 3 && m == 0 {
        lemma_cartesian_terms_3_0();
    } else if l == 3 && m == 1 {
        lemma_cartesian_terms_3_1();
    } else if l == 3 && m == 2 {
        lemma_cartesian_terms_3_2();
    } else if l == 3 && m == 3 {
        lemma_cartesian_terms_3_3();
    } else if l == 4 && m == -4 {
        lemma_cartesian_terms_4_neg4();
    } else if l == 4 && m == -3 {
        lemma_cartesian_terms_4_neg3();
    } else if l == 4 && m == -2 {
        lemma_cartesian_terms_4_neg2();
    } else if l == 4 && m == -1 {
        lemma_cartesian_terms_4_neg1();
    } else if l == 4 && m == 0 {
        lemma_cartesian_terms_4_0();
    } else if l == 4 && m == 1 {
        lemma_cartesian_terms_4_1();
    } else if l == 4 && m == 2 {
        lemma_cartesian_terms_4_2();
    } else if l == 4 && m == 3 {
        lemma_cartesian_terms_4_3();
    } else if l == 4 && m == 4 {
        lemma_cartesian_terms_4_4();
    }
}

/// Implementation of the spherical harmonics, `Y_l^m(θ,φ)`, including the Condon-Shortley phase.
#[derive(Clone, PartialEq, Eq, Debug, Structural)]
pub struct SphericalHarmonic {
    lm: Lm,
}

impl SphericalHarmonic {
    /// The spherical harmonic of the given `l` and `m`.
    pub fn new(lm: Lm) -> (r: Self)
        ensures
            r.lm() == lm,
    {
        Self { lm }
    }

    /// The quantum numbers `l` and `m` of the harmonic.
    pub closed spec fn lm(self) -> Lm {
        self.lm
    }
}

/// Implementation of the real spherical harmonics, `S_lm(θ,φ)`.
///
/// See [Blanco et al. 1997](https://doi.org/10.1016/S0166-1280(97)00185-1) for more information.
#[derive(Clone, PartialEq, Eq, Debug, Structural)]
pub struct RealSphericalHarmonic {
    lm: Lm,
}

impl RealSphericalHarmonic {
    /// The real spherical harmonic of the given `l` and `m`.
    pub fn new(lm: Lm) -> (r: Self)
        ensures
            r.lm() == lm,
    {
        Self { lm }
    }

    /// The quantum numbers `l` and `m` of the harmonic.
    pub closed spec fn lm(self) -> Lm {
        self.lm
    }

    /// Give the (abbreviated) Cartesian expression for the linear combination that corresponds
    /// to a certain set of `l` and `m` quantum numbers.
    ///
    /// This is only implemented for `l` up to 4 and returns `None` for larger values.
    ///
    /// See <https://en.wikipedia.org/wiki/Table_of_spherical_harmonics#Real_spherical_harmonics>.
    pub fn cartesian_expression(lm: Lm) -> (r: Option<SupSubString>)
        ensures
            r is Some <==> lm@.0 <= 4,
            r matches Some(s) ==> cartesian_runs(lm@.0, lm@.1) == Some(s@),
    {
        let l = lm.l();
        let m = lm.m();
        match l {
            0 => {
                let s = SupSubString::from_normal("");
                Some(s)
            },
            1 => {
                let s = match m {
                    -1 => {
                        let mut s = SupSubString::from_normal("y");
                        s
                    },
                    0 => {
                        let mut s = SupSubString::from_normal("z");
                        s
                    },
                    1 => {
                        let mut s = SupSubString::from_normal("x");
                        s
                    },
                    _ => {
                        proof {
                            assert(false);
                        }
                        SupSubString::new()
                    },
                };
                Some(s)
            },
            2 => {
                let s = match m {
                    -2 => {
                        let mut s = SupSubString::from_normal("xy");
                        s
                    },
                    -1 => {
                        let mut s = SupSubString::from_normal("yz");
                        s
                    },
                    0 => {
                        let mut s = SupSubString::from_normal("z");
                        s.push_sup("2");
                        s
                    },
                    1 => {
                        let mut s = SupSubString::from_normal("xz");
                        s
                    },
                    2 => {
                        let mut s = SupSubString::from_normal("x");
                        s.push_sup("2");
                        s.push_nrm("−y");
                        s.push_sup("2");
                        s
                    },
                    _ => {
                        proof {
                            assert(false);
                        }
                        SupSubString::new()
                    },
                };
                Some(s)
            },
            3 => {
                let s = match m {
                    -3 => {
                        let mut s = SupSubString::from_normal("y(3x");
                        s.push_sup("2");
                        s.push_nrm("−y");
                        s.push_sup("2");
                        s.push_nrm(")");
                        s
                    },
                    -2 => {
                        let mut s = SupSubString::from_normal("xyz");
                        s
                    },
                    -1 => {
                        let mut s = SupSubString::from_normal("yz");
                        s.push_sup("2");
                        s
                    },
                    0 => {
                        let mut s = SupSubString::from_normal("z");
                        s.push_sup("3");
                        s
                    },
                    1 => {
                        let mut s = SupSubString::from_normal("xz");
                        s.push_sup("2");
                        s
                    },
                    2 => {
                        let mut s = SupSubString::from_normal("z(x");
                        s.push_sup("2");
                        s.push_nrm("−y");
                        s.push_sup("2");
                        s.push_nrm(")");
                        s
                    },
                    3 => {
                        let mut s = SupSubString::from_normal("x(x");
                        s.push_sup("2");
                        s.push_nrm("−3y");
                        s.push_sup("2");
                        s.push_nrm(")");
                        s
                    },
                    _ => {
                        proof {
                            assert(false);
                        }
                        SupSubString::new()
                    },
                };
                Some(s)
            },
            4 => {
                let s = match m {
                    -4 => {
                        let mut s = SupSubString::from_normal("xy(x");
                        s.push_sup("2");
                        s.push_nrm("−y");
                        s.push_sup("2");
                        s.push_nrm(")");
                        s
                    },
                    -3 => {
                        let mut s = SupSubString::from_normal("y");
                        s.push_sup("3");
                        s.push_nrm("z");
                        s
                    },
                    -2 => {
                        let mut s = SupSubString::from_normal("xyz");
                        s.push_sup("2");
                        s
                    },
                    -1 => {
                        let mut s = SupSubString::from_normal("yz");
                        s.push_sup("3");
                        s
                    },
                    0 => {
                        let mut s = SupSubString::from_normal("z");
                        s.push_sup("4");
                        s
                    },
                    1 => {
                        let mut s = SupSubString::from_normal("xz");
                        s.push_sup("3");
                        s
                    },
                    2 => {
                        let mut s = SupSubString::from_normal("z");
                        s.push_sup("2");
                        s.push_nrm("(x");
                        s.push_sup("2");
                        s.push_nrm("−y");
                        s.push_sup("2");
                        s.push_nrm(")");
                        s
                    },
                    3 => {
                        let mut s = SupSubString::from_normal("x");
                        s.push_sup("3");
                        s.push_nrm("z");
                        s
                    },
                    4 => {
                        let mut s = SupSubString::from_normal("x");
                        s.push_sup("4");
                        s.push_nrm("+y");
                        s.push_sup("4");
                        s
                    },
                    _ => {
                        proof {
                            assert(false);
                        }
                        SupSubString::new()
                    },
                };
                Some(s)
            },
            _ => None,
        }
    }
}

} // verus!
