//! Types for working with and validating quantum numbers.
use std::ops::{Range, RangeInclusive};
use vstd::prelude::*;
use vstd::string::*;
use crate::utils::{push_decimal, push_signed_decimal, decimal, signed_decimal};

verus! {

/// The absolute value of an integer.
pub open spec fn abs(x: int) -> int {
    if x < 0 {
        -x
    } else {
        x
    }
}

/// `(n, l, m)` satisfies `0 < n`, `l < n` and `|m| <= l`.
pub open spec fn valid_nlm(n: int, l: int, m: int) -> bool {
    &&& 0 < n
    &&& 0 <= l < n
    &&& abs(m) <= l
}

/// Exact test of `|m| <= l` on machine integers.
fn abs_within(m: i32, l: u32) -> (r: bool)
    ensures
        r == (abs(m as int) <= l),
{
    let m64 = m as i64;
    let l64 = l as i64;
    -l64 <= m64 && m64 <= l64
}

/// Error type describing an invalid [`Qn`].
#[derive(PartialEq, Eq, Debug, Clone, Copy, Structural)]
pub enum InvalidQnError {
    /// `n` is zero.
    N,
    /// `l` is too large.
    L { n: u32, l: u32 },
    /// `|m|` is too large.
    M { l: u32, m: i32 },
}

/// Type representing the quantum numbers `n`, `l`, and `m`.
///
/// # Invariants
/// `Qn` must satisfy that `0 < n`, `l < n` and `|m| <= l`.
#[derive(Clone, Copy, PartialEq, Eq, PartialOrd, Ord, Hash, Debug, Structural)]
pub struct Qn {
    /// The principal quantum number.
    n: u32,
    /// The azimuthal quantum number.
    l: u32,
    /// The magnetic quantum number.
    m: i32,
}

impl View for Qn {
    type V = (u32, u32, i32);

    closed spec fn view(&self) -> (u32, u32, i32) {
        (self.n, self.l, self.m)
    }
}

/// The triple `(n, l, m)` satisfies the invariants of [`Qn`].
pub open spec fn valid_qn(v: (u32, u32, i32)) -> bool {
    valid_nlm(v.0 as int, v.1 as int, v.2 as int)
}

impl Qn {
    #[verifier::type_invariant]
    spec fn inv(self) -> bool {
        valid_nlm(self.n as int, self.l as int, self.m as int)
    }

    /// Create a new `Qn`, verifying that the passed values are valid.
    pub fn new(n: u32, l: u32, m: i32) -> (r: Result<Self, InvalidQnError>)
        ensures
            !(0 < n) ==> r == Err::<Self, InvalidQnError>(InvalidQnError::N),
            0 < n && !(l < n) ==> r == Err::<Self, InvalidQnError>(InvalidQnError::L { n, l }),
            0 < n && l < n && !(abs(m as int) <= l) ==> r == Err::<Self, InvalidQnError>(
                InvalidQnError::M { l, m },
            ),
            valid_nlm(n as int, l as int, m as int) <==> r is Ok,
            r matches Ok(q) ==> q@ == (n, l, m),
    {
        if !(0 < n) {
            return Err(InvalidQnError::N);
        }
        if !(l < n) {
            return Err(InvalidQnError::L { n, l });
        }
        if !abs_within(m, l) {
            return Err(InvalidQnError::M { l, m });
        }
        Ok(Self { n, l, m })
    }

    /// The principal quantum number.
    pub fn n(&self) -> (r: u32)
        ensures
            r == self@.0,
            valid_qn(self@),
    {
        proof {
            use_type_invariant(self);
        }
        self.n
    }

    /// The azimuthal quantum number.
    pub fn l(&self) -> (r: u32)
        ensures
            r == self@.1,
            valid_qn(self@),
    {
        proof {
            use_type_invariant(self);
        }
        self.l
    }

    /// The magnetic quantum number.
    pub fn m(&self) -> (r: i32)
        ensures
            r == self@.2,
            valid_qn(self@),
    {
        proof {
            use_type_invariant(self);
        }
        self.m
    }
}

/// The quantum numbers `(n, l, m)` for fixed `n` and `l`, ordered by increasing `m`.
pub open spec fn qns_with_nl(n: u32, l: u32) -> Seq<(u32, u32, i32)> {
    Seq::new((2 * l + 1) as nat, |i: int| (n, l, (i - l) as i32))
}

/// The quantum numbers with fixed `n` and `l < lcount`, ordered by `l` then `m`.
pub open spec fn qns_with_n_below_l(n: u32, lcount: nat) -> Seq<(u32, u32, i32)>
    decreases lcount,
{
    if lcount == 0 {
        Seq::empty()
    } else {
        qns_with_n_below_l(n, (lcount - 1) as nat) + qns_with_nl(n, (lcount - 1) as u32)
    }
}

/// All quantum numbers with principal quantum number at most `n`, ordered
/// lexicographically by `(n, l, m)`.
pub open spec fn qns_up_to_n(n: nat) -> Seq<(u32, u32, i32)>
    decreases n,
{
    if n == 0 {
        Seq::empty()
    } else {
        qns_up_to_n((n - 1) as nat) + qns_with_n_below_l(n as u32, n)
    }
}

/// All quantum numbers with `n` at most `n` and `l` at most `lmax`, ordered
/// lexicographically by `(n, l, m)`.
pub open spec fn qns_up_to_n_l(n: nat, lmax: nat) -> Seq<(u32, u32, i32)>
    decreases n,
{
    if n == 0 {
        Seq::empty()
    } else {
        qns_up_to_n_l((n - 1) as nat, lmax) + qns_with_n_below_l(
            n as u32,
            if n <= lmax + 1 { n } else { lmax + 1 },
        )
    }
}

/// The views of a sequence of [`Qn`]s.
pub open spec fn qn_views(s: Seq<Qn>) -> Seq<(u32, u32, i32)> {
    s.map_values(|q: Qn| q@)
}

/// `m` clamped into `[-l, l]`, keeping its sign.
pub open spec fn clamp_m(m: i32, l: u32) -> i32 {
    if abs(m as int) <= l {
        m
    } else if m < 0 {
        (-(l as int)) as i32
    } else {
        l as i32
    }
}

/// The result of setting `l` on the quantum numbers `v`, clamping `m`.
pub open spec fn with_l_clamped(v: (u32, u32, i32), l: u32) -> (u32, u32, i32) {
    (v.0, l, clamp_m(v.2, l))
}

/// The result of setting `n` on the quantum numbers `v`, clamping `l` and `m`.
pub open spec fn with_n_clamped(v: (u32, u32, i32), n: u32) -> (u32, u32, i32) {
    if v.1 < n {
        (n, v.1, v.2)
    } else {
        (n, (n - 1) as u32, clamp_m(v.2, (n - 1) as u32))
    }
}

/// The text `ψnlm`.
pub open spec fn wavefunction_text(v: (u32, u32, i32)) -> Seq<char> {
    seq!['ψ'] + decimal(v.0 as nat) + decimal(v.1 as nat) + signed_decimal(v.2 as int)
}

/// The text `nl|m|`, with an `n` before `|m|` when `m` is negative.
pub open spec fn display_text(v: (u32, u32, i32)) -> Seq<char> {
    decimal(v.0 as nat) + decimal(v.1 as nat) + (if v.2 < 0 {
        seq!['n']
    } else {
        Seq::empty()
    }) + decimal(abs(v.2 as int) as nat)
}

impl Qn {
    /// List all possible values of `l` for a given value of `n`.
    pub fn enumerate_l_for_n(n: u32) -> (r: Result<Range<u32>, InvalidQnError>)
        ensures
            n == 0 ==> r == Err::<Range<u32>, InvalidQnError>(InvalidQnError::N),
            n > 0 ==> (r matches Ok(range) && range.start == 0 && range.end == n),
    {
        if !(0 < n) {
            return Err(InvalidQnError::N);
        }
        Ok(0..n)
    }

    /// List all possible values of `m` for a given value of `l`.
    ///
    /// `l` must be at most `i32::MAX`: the values `-l..=l` of `m` are `i32`s, and no range of
    /// them holds `-l` and `l` beyond that bound (the conversion of `l` to `i32` overflows there).
    pub fn enumerate_m_for_l(l: u32) -> (r: RangeInclusive<i32>)
        requires
            l <= i32::MAX,
        ensures
            r@.start == -(l as int),
            r@.end == l,
            !r@.exhausted,
    {
        RangeInclusive::new(-(l as i32), l as i32)
    }

    /// Append to `res` the quantum numbers with the given `n` and `l`, ordered by `m`.
    fn push_all_m(res: &mut Vec<Qn>, n: u32, l: u32)
        requires
            valid_nlm(n as int, l as int, 0),
            l <= i32::MAX,
        ensures
            qn_views(final(res)@) == qn_views(old(res)@) + qns_with_nl(n, l),
    {
        let count: u64 = 2 * (l as u64) + 1;
        let mut i: u64 = 0;
        while i < count
            invariant
                valid_nlm(n as int, l as int, 0),
                l <= i32::MAX,
                count == 2 * l + 1,
                i <= count,
                qn_views(res@) == qn_views(old(res)@) + qns_with_nl(n, l).take(i as int),
            decreases count - i,
        {
            let m = (i as i64 - l as i64) as i32;
            let q = Qn { n, l, m };
            let ghost prev = res@;
            res.push(q);
            proof {
                assert(qn_views(res@) =~= qn_views(prev).push(q@));
                assert(qns_with_nl(n, l).take(i + 1) =~= qns_with_nl(n, l).take(i as int).push(
                    (n, l, m),
                ));
                assert(qn_views(res@) =~= qn_views(old(res)@) + qns_with_nl(n, l).take(i + 1));
            }
            i = i + 1;
        }
        proof {
            assert(qns_with_nl(n, l).take(count as int) =~= qns_with_nl(n, l));
        }
    }

    /// Append to `res` the quantum numbers with the given `n` and `l < lcount`.
    fn push_all_l_below(res: &mut Vec<Qn>, n: u32, lcount: u32)
        requires
            0 < n,
            lcount <= n,
            lcount <= 0x8000_0000,
        ensures
            qn_views(final(res)@) == qn_views(old(res)@) + qns_with_n_below_l(n, lcount as nat),
    {
        let mut l: u32 = 0;
        while l < lcount
            invariant
                0 < n,
                lcount <= n,
                lcount <= 0x8000_0000,
                l <= lcount,
                qn_views(res@) == qn_views(old(res)@) + qns_with_n_below_l(n, l as nat),
            decreases lcount - l,
        {
            Self::push_all_m(res, n, l);
            proof {
                assert(qn_views(res@) =~= qn_views(old(res)@) + qns_with_n_below_l(
                    n,
                    (l + 1) as nat,
                ));
            }
            l = l + 1;
        }
    }

    /// List all possible quantum number sets with `n` less than or equal to the value passed,
    /// ordered lexicographically by `(n, l, m)`.
    ///
    /// `n` must be at most `2^31`: beyond it, `l` reaches `2^31`, and the values `-l..=l` of `m`
    /// no longer fit in an `i32`.
    pub fn enumerate_up_to_n(n: u32) -> (r: Result<Vec<Qn>, InvalidQnError>)
        requires
            n <= 0x8000_0000,
        ensures
            n == 0 ==> r == Err::<Vec<Qn>, InvalidQnError>(InvalidQnError::N),
            n > 0 ==> (r matches Ok(v) && qn_views(v@) == qns_up_to_n(n as nat)),
    {
        if !(0 < n) {
            return Err(InvalidQnError::N);
        }
        let mut res: Vec<Qn> = Vec::new();
        let mut cur: u32 = 1;
        while cur <= n
            invariant
                1 <= cur <= n + 1,
                n <= 0x8000_0000,
                qn_views(res@) == qns_up_to_n((cur - 1) as nat),
            decreases n + 1 - cur,
        {
            Self::push_all_l_below(&mut res, cur, cur);
            cur = cur + 1;
        }
        Ok(res)
    }

    /// List all possible quantum number sets with both `n` and `l` less than or equal to
    /// the values passed, ordered lexicographically by `(n, l, m)`.
    ///
    /// When `l < n`, `l` must be at most `i32::MAX`: the values `-l..=l` of `m` are `i32`s.
    pub fn enumerate_up_to_n_l(n: u32, l: u32) -> (r: Result<Vec<Qn>, InvalidQnError>)
        requires
            l < n ==> l <= i32::MAX,
        ensures
            n == 0 ==> r == Err::<Vec<Qn>, InvalidQnError>(InvalidQnError::N),
            n > 0 && !(l < n) ==> r == Err::<Vec<Qn>, InvalidQnError>(
                InvalidQnError::L { n, l },
            ),
            0 < n && l < n ==> (r matches Ok(v) && qn_views(v@) == qns_up_to_n_l(
                n as nat,
                l as nat,
            )),
    {
        if !(0 < n) {
            return Err(InvalidQnError::N);
        }
        if !(l < n) {
            return Err(InvalidQnError::L { n, l });
        }
        let mut res: Vec<Qn> = Vec::new();
        let mut cur: u64 = 1;
        while cur <= n as u64
            invariant
                1 <= cur <= n + 1,
                l < n,
                l <= i32::MAX,
                qn_views(res@) == qns_up_to_n_l((cur - 1) as nat, l as nat),
            decreases n + 1 - cur,
        {
            let c = cur as u32;
            let lcount: u32 = if c <= l + 1 { c } else { l + 1 };
            Self::push_all_l_below(&mut res, c, lcount);
            proof {
                assert(qns_up_to_n_l(cur as nat, l as nat) == qns_up_to_n_l((cur - 1) as nat, l as nat)
                    + qns_with_n_below_l(c, lcount as nat));
            }
            cur = cur + 1;
        }
        Ok(res)
    }

    /// Set `n`, the principal quantum number, clamping `l` and `m` as necessary.
    pub fn set_n_clamping(&mut self, n: u32) -> (r: Result<(), InvalidQnError>)
        ensures
            n == 0 ==> r == Err::<(), InvalidQnError>(InvalidQnError::N) && *final(self)
                == *old(self),
            n > 0 ==> r is Ok && final(self)@ == with_n_clamped(old(self)@, n),
    {
        proof {
            use_type_invariant(&*self);
        }
        if !(0 < n) {
            return Err(InvalidQnError::N);
        }
        if !(self.l < n) {
            self.set_l_clamping(n - 1)?;
        }
        self.n = n;
        Ok(())
    }

    /// Set `l`, the azimuthal quantum number, clamping `m` as necessary.
    pub fn set_l_clamping(&mut self, l: u32) -> (r: Result<(), InvalidQnError>)
        ensures
            !(l < old(self)@.0) ==> r == Err::<(), InvalidQnError>(
                InvalidQnError::L { n: old(self)@.0, l },
            ) && *final(self) == *old(self),
            l < old(self)@.0 ==> r is Ok && final(self)@ == with_l_clamped(old(self)@, l),
    {
        proof {
            use_type_invariant(&*self);
        }
        if !(l < self.n) {
            return Err(InvalidQnError::L { n: self.n, l });
        }
        if !abs_within(self.m, l) {
            let clamped = if self.m < 0 {
                -(l as i32)
            } else {
                l as i32
            };
            self.set_m(clamped)?;
        }
        self.l = l;
        Ok(())
    }

    /// Set `m`, the magnetic quantum number.
    pub fn set_m(&mut self, m: i32) -> (r: Result<(), InvalidQnError>)
        ensures
            !(abs(m as int) <= old(self)@.1) ==> r == Err::<(), InvalidQnError>(
                InvalidQnError::M { l: old(self)@.1, m },
            ) && *final(self) == *old(self),
            abs(m as int) <= old(self)@.1 ==> r is Ok && final(self)@ == (
                old(self)@.0,
                old(self)@.1,
                m,
            ),
    {
        proof {
            use_type_invariant(&*self);
        }
        if !abs_within(m, self.l) {
            return Err(InvalidQnError::M { l: self.l, m });
        }
        self.m = m;
        Ok(())
    }

    /// Alternative display method that treats `self` as a wavefuntion, in the format `ψnlm`.
    pub fn to_string_as_wavefunction(&self) -> (r: String)
        ensures
            r@ == wavefunction_text(self@),
    {
        proof {
            reveal_strlit("ψ");
        }
        let mut s = String::from_str("ψ");
        push_decimal(&mut s, self.n as u64);
        push_decimal(&mut s, self.l as u64);
        push_signed_decimal(&mut s, self.m as i64);
        s
    }

    /// The conventional short display of the quantum numbers, `nl|m|` with an `n` marking a
    /// negative `m` (ex. `21n1`).
    pub fn to_string(&self) -> (r: String)
        ensures
            r@ == display_text(self@),
    {
        let mut s = String::new();
        push_decimal(&mut s, self.n as u64);
        push_decimal(&mut s, self.l as u64);
        if self.m < 0 {
            proof {
                reveal_strlit("n");
            }
            s.append("n");
        }
        let magnitude: u64 = if self.m < 0 {
            (-(self.m as i64)) as u64
        } else {
            self.m as u64
        };
        push_decimal(&mut s, magnitude);
        proof {
            assert(s@ =~= display_text(self@));
        }
        s
    }
}

impl Default for Qn {
    fn default() -> (r: Self)
        ensures
            r@ == (1u32, 0u32, 0i32),
    {
        Self { n: 1, l: 0, m: 0 }
    }
}

/// Lexicographic order on quantum number triples.
pub open spec fn lex_lt(a: (u32, u32, i32), b: (u32, u32, i32)) -> bool {
    ||| a.0 < b.0
    ||| a.0 == b.0 && a.1 < b.1
    ||| a.0 == b.0 && a.1 == b.1 && a.2 < b.2
}

/// The sequence is strictly increasing in lexicographic order.
pub open spec fn strictly_sorted(s: Seq<(u32, u32, i32)>) -> bool {
    forall|i: int, j: int| 0 <= i < j < s.len() ==> lex_lt(#[trigger] s[i], #[trigger] s[j])
}

proof fn lemma_sorted_concat(a: Seq<(u32, u32, i32)>, b: Seq<(u32, u32, i32)>)
    requires
        strictly_sorted(a),
        strictly_sorted(b),
        forall|i: int, j: int| 0 <= i < a.len() && 0 <= j < b.len() ==> lex_lt(a[i], b[j]),
    ensures
        strictly_sorted(a + b),
{
    assert forall|i: int, j: int| 0 <= i < j < (a + b).len() implies lex_lt(
        #[trigger] (a + b)[i],
        #[trigger] (a + b)[j],
    ) by {
        if j < a.len() {
        } else if i >= a.len() {
            assert((a + b)[i] == b[i - a.len()]);
            assert((a + b)[j] == b[j - a.len()]);
        } else {
            assert((a + b)[j] == b[j - a.len()]);
        }
    }
}

proof fn lemma_with_nl(n: u32, l: u32)
    requires
        l <= i32::MAX,
    ensures
        qns_with_nl(n, l).len() == 2 * l + 1,
        strictly_sorted(qns_with_nl(n, l)),
        forall|v: (u32, u32, i32)|
            #[trigger] qns_with_nl(n, l).contains(v) <==> (v.0 == n && v.1 == l && abs(v.2 as int) <= l),
{
    let s = qns_with_nl(n, l);
    assert forall|v: (u32, u32, i32)| (v.0 == n && v.1 == l && abs(v.2 as int) <= l) implies s.contains(
        v,
    ) by {
        let i = v.2 + l;
        assert(s[i] == v);
    }
}

proof fn lemma_with_n_below_l(n: u32, lcount: nat)
    requires
        lcount <= 0x8000_0000,
    ensures
        qns_with_n_below_l(n, lcount).len() == lcount * lcount,
        strictly_sorted(qns_with_n_below_l(n, lcount)),
        forall|v: (u32, u32, i32)|
            #[trigger] qns_with_n_below_l(n, lcount).contains(v) <==> (v.0 == n && v.1 < lcount && abs(
                v.2 as int,
            ) <= v.1),
    decreases lcount,
{
    if lcount > 0 {
        let prev = qns_with_n_below_l(n, (lcount - 1) as nat);
        let last = qns_with_nl(n, (lcount - 1) as u32);
        lemma_with_n_below_l(n, (lcount - 1) as nat);
        lemma_with_nl(n, (lcount - 1) as u32);
        assert forall|i: int, j: int| 0 <= i < prev.len() && 0 <= j < last.len() implies lex_lt(
            prev[i],
            last[j],
        ) by {
            assert(prev.contains(prev[i]));
            assert(last.contains(last[j]));
        }
        lemma_sorted_concat(prev, last);
        assert((lcount - 1) * (lcount - 1) + 2 * (lcount - 1) + 1 == lcount * lcount)
            by (nonlinear_arith);
        assert forall|v: (u32, u32, i32)|
            #[trigger] qns_with_n_below_l(n, lcount).contains(v) <==> (v.0 == n && v.1 < lcount && abs(
                v.2 as int,
            ) <= v.1) by {
            let s = prev + last;
            if s.contains(v) {
                let k = choose|k: int| 0 <= k < s.len() && s[k] == v;
                if k < prev.len() {
                    assert(prev.contains(prev[k]));
                } else {
                    assert(last.contains(last[k - prev.len()]));
                }
            }
            if v.0 == n && v.1 < lcount && abs(v.2 as int) <= v.1 {
                if v.1 < lcount - 1 {
                    assert(prev.contains(v));
                    let k = choose|k: int| 0 <= k < prev.len() && prev[k] == v;
                    assert(s[k] == v);
                } else {
                    assert(last.contains(v));
                    let k = choose|k: int| 0 <= k < last.len() && last[k] == v;
                    assert(s[k + prev.len()] == v);
                }
            }
        }
    }
}

/// Sum of the squares `1^2 + ... + n^2`.
pub open spec fn sum_of_squares(n: nat) -> nat
    decreases n,
{
    if n == 0 {
        0
    } else {
        sum_of_squares((n - 1) as nat) + n * n
    }
}

proof fn lemma_sum_of_squares(n: nat)
    ensures
        6 * sum_of_squares(n) == (n as int) * (n + 1) * (2 * n + 1),
    decreases n,
{
    if n == 0 {
        assert((n as int) * (n + 1) * (2 * n + 1) == 0) by (nonlinear_arith)
            requires
                n == 0,
        ;
    } else {
        lemma_sum_of_squares((n - 1) as nat);
        let k = (n - 1) as nat;
        let a = sum_of_squares(k);
        let b = sum_of_squares(n);
        assert(b == a + n * n);
        assert(6 * b == n * (n + 1) * (2 * n + 1)) by (nonlinear_arith)
            requires
                k + 1 == n,
                6 * a == k * (k + 1) * (2 * k + 1),
                b == a + n * n,
        ;
    }
}

/// The enumeration of all quantum numbers with principal quantum number at most `n`
/// ([`Qn::enumerate_up_to_n`]) lists exactly the valid triples `(n', l, m)` with `n' <= n`,
/// each once, in strictly increasing lexicographic order; there are
/// `1^2 + 2^2 + ... + n^2 = n(n+1)(2n+1)/6` of them.
pub proof fn lemma_enumerate_up_to_n(n: nat)
    requires
        n <= 0x8000_0000,
    ensures
        strictly_sorted(qns_up_to_n(n)),
        forall|v: (u32, u32, i32)|
            #[trigger] qns_up_to_n(n).contains(v) <==> (valid_qn(v) && v.0 <= n),
        qns_up_to_n(n).len() == sum_of_squares(n),
        6 * qns_up_to_n(n).len() == (n as int) * (n + 1) * (2 * n + 1),
    decreases n,
{
    lemma_sum_of_squares(n);
    if n > 0 {
        let prev = qns_up_to_n((n - 1) as nat);
        let last = qns_with_n_below_l(n as u32, n);
        lemma_enumerate_up_to_n((n - 1) as nat);
        lemma_with_n_below_l(n as u32, n);
        assert((n as u32) as nat == n);
        assert forall|i: int, j: int| 0 <= i < prev.len() && 0 <= j < last.len() implies lex_lt(
            prev[i],
            last[j],
        ) by {
            assert(prev.contains(prev[i]));
            assert(last.contains(last[j]));
            assert(prev[i].0 < n);
            assert(last[j].0 == n);
        }
        lemma_sorted_concat(prev, last);
        assert forall|v: (u32, u32, i32)|
            #[trigger] qns_up_to_n(n).contains(v) <==> (valid_qn(v) && v.0 <= n) by {
            let s = prev + last;
            if s.contains(v) {
                let k = choose|k: int| 0 <= k < s.len() && s[k] == v;
                if k < prev.len() {
                    assert(prev.contains(prev[k]));
                } else {
                    assert(last.contains(last[k - prev.len()]));
                }
            }
            if valid_qn(v) && v.0 <= n {
                if v.0 < n {
                    assert(prev.contains(v));
                    let k = choose|k: int| 0 <= k < prev.len() && prev[k] == v;
                    assert(s[k] == v);
                } else {
                    assert(last.contains(v));
                    let k = choose|k: int| 0 <= k < last.len() && last[k] == v;
                    assert(s[k + prev.len()] == v);
                }
            }
        }
    }
}

/// The enumeration bounded in both `n` and `l` ([`Qn::enumerate_up_to_n_l`]) lists exactly the
/// valid triples `(n', l', m)` with `n' <= n` and `l' <= l`, each once, in strictly increasing
/// lexicographic order.
pub proof fn lemma_enumerate_up_to_n_l(n: nat, l: nat)
    requires
        n <= u32::MAX,
        l <= i32::MAX || n <= 0x8000_0000,
    ensures
        strictly_sorted(qns_up_to_n_l(n, l)),
        forall|v: (u32, u32, i32)|
            #[trigger] qns_up_to_n_l(n, l).contains(v) <==> (valid_qn(v) && v.0 <= n && v.1 <= l),
    decreases n,
{
    if n > 0 {
        let lcount: nat = if n <= l + 1 {
            n
        } else {
            l + 1
        };
        let prev = qns_up_to_n_l((n - 1) as nat, l);
        let last = qns_with_n_below_l(n as u32, lcount);
        lemma_enumerate_up_to_n_l((n - 1) as nat, l);
        lemma_with_n_below_l(n as u32, lcount);
        assert((n as u32) as nat == n);
        assert forall|i: int, j: int| 0 <= i < prev.len() && 0 <= j < last.len() implies lex_lt(
            prev[i],
            last[j],
        ) by {
            assert(prev.contains(prev[i]));
            assert(last.contains(last[j]));
            assert(prev[i].0 < n);
            assert(last[j].0 == n);
        }
        lemma_sorted_concat(prev, last);
        assert forall|v: (u32, u32, i32)|
            #[trigger] qns_up_to_n_l(n, l).contains(v) <==> (valid_qn(v) && v.0 <= n && v.1 <= l) by {
            let s = prev + last;
            if s.contains(v) {
                let k = choose|k: int| 0 <= k < s.len() && s[k] == v;
                if k < prev.len() {
                    assert(prev.contains(prev[k]));
                } else {
                    assert(last.contains(last[k - prev.len()]));
                }
            }
            if valid_qn(v) && v.0 <= n && v.1 <= l {
                if v.0 < n {
                    assert(prev.contains(v));
                    let k = choose|k: int| 0 <= k < prev.len() && prev[k] == v;
                    assert(s[k] == v);
                } else {
                    assert(last.contains(v));
                    let k = choose|k: int| 0 <= k < last.len() && last[k] == v;
                    assert(s[k + prev.len()] == v);
                }
            }
        }
    }
}

/// Setting `n` (resp. `l`) with clamping always yields valid quantum numbers, keeps `l` (resp.
/// `m`) whenever it is already compatible, and clamping a second time changes nothing.
pub proof fn lemma_clamping(v: (u32, u32, i32), n: u32, l: u32)
    requires
        valid_qn(v),
    ensures
        n > 0 ==> valid_qn(with_n_clamped(v, n)),
        n > 0 && v.1 < n ==> with_n_clamped(v, n) == (n, v.1, v.2),
        n > 0 ==> with_n_clamped(with_n_clamped(v, n), n) == with_n_clamped(v, n),
        l < v.0 ==> valid_qn(with_l_clamped(v, l)),
        l < v.0 && abs(v.2 as int) <= l ==> with_l_clamped(v, l) == (v.0, l, v.2),
        l < v.0 ==> with_l_clamped(with_l_clamped(v, l), l) == with_l_clamped(v, l),
{
}

/// Type representing the quantum numbers `n` and `l`.
///
/// # Invariants
/// `Nl` must satisfy that `0 < n` and `l < n`.
#[derive(Clone, Copy, PartialEq, Eq, Hash, Debug, Structural)]
pub struct Nl {
    /// The principal quantum number.
    n: u32,
    /// The azimuthal quantum number.
    l: u32,
}

impl View for Nl {
    type V = (u32, u32);

    closed spec fn view(&self) -> (u32, u32) {
        (self.n, self.l)
    }
}

impl Nl {
    #[verifier::type_invariant]
    spec fn inv(self) -> bool {
        0 < self.n && self.l < self.n
    }

    /// Create a new `Nl`, verifying that the passed values are valid.
    pub fn new(n: u32, l: u32) -> (r: Result<Self, InvalidQnError>)
        ensures
            !(0 < n) ==> r == Err::<Self, InvalidQnError>(InvalidQnError::N),
            0 < n && !(l < n) ==> r == Err::<Self, InvalidQnError>(InvalidQnError::L { n, l }),
            (0 < n && l < n) <==> r is Ok,
            r matches Ok(q) ==> q@ == (n, l),
    {
        if !(0 < n) {
            return Err(InvalidQnError::N);
        }
        if !(l < n) {
            return Err(InvalidQnError::L { n, l });
        }
        Ok(Self { n, l })
    }

    /// The principal quantum number.
    pub fn n(&self) -> (r: u32)
        ensures
            r == self@.0,
            0 < self@.0 && self@.1 < self@.0,
    {
        proof {
            use_type_invariant(self);
        }
        self.n
    }

    /// The azimuthal quantum number.
    pub fn l(&self) -> (r: u32)
        ensures
            r == self@.1,
            0 < self@.0 && self@.1 < self@.0,
    {
        proof {
            use_type_invariant(self);
        }
        self.l
    }
}

impl From<Qn> for Nl {
    fn from(qn: Qn) -> (r: Self) {
        proof {
            use_type_invariant(&qn);
        }
        Self { n: qn.n, l: qn.l }
    }
}

impl vstd::std_specs::convert::FromSpecImpl<Qn> for Nl {
    open spec fn obeys_from_spec() -> bool {
        true
    }

    closed spec fn from_spec(qn: Qn) -> Self {
        Nl { n: qn.n, l: qn.l }
    }
}

/// Type representing the quantum numbers `l` and `m`.
///
/// # Invariants
/// `Lm` must satisfy that `|m| <= l`.
#[derive(Clone, Copy, PartialEq, Eq, Hash, Debug, Structural)]
pub struct Lm {
    /// The azimuthal quantum number.
    l: u32,
    /// The magnetic quantum number.
    m: i32,
}

impl View for Lm {
    type V = (u32, i32);

    closed spec fn view(&self) -> (u32, i32) {
        (self.l, self.m)
    }
}

impl Lm {
    #[verifier::type_invariant]
    spec fn inv(self) -> bool {
        abs(self.m as int) <= self.l
    }

    /// Create a new `Lm`, verifying that the passed values are valid.
    pub fn new(l: u32, m: i32) -> (r: Result<Self, InvalidQnError>)
        ensures
            !(abs(m as int) <= l) ==> r == Err::<Self, InvalidQnError>(InvalidQnError::M { l, m }),
            abs(m as int) <= l <==> r is Ok,
            r matches Ok(q) ==> q@ == (l, m),
    {
        if !abs_within(m, l) {
            return Err(InvalidQnError::M { l, m });
        }
        Ok(Self { l, m })
    }

    /// The azimuthal quantum number.
    pub fn l(&self) -> (r: u32)
        ensures
            r == self@.0,
            abs(self@.1 as int) <= self@.0,
    {
        proof {
            use_type_invariant(self);
        }
        self.l
    }

    /// The magnetic quantum number.
    pub fn m(&self) -> (r: i32)
        ensures
            r == self@.1,
            abs(self@.1 as int) <= self@.0,
    {
        proof {
            use_type_invariant(self);
        }
        self.m
    }
}

impl From<Qn> for Lm {
    fn from(qn: Qn) -> (r: Self) {
        proof {
            use_type_invariant(&qn);
        }
        Self { l: qn.l, m: qn.m }
    }
}

impl vstd::std_specs::convert::FromSpecImpl<Qn> for Lm {
    open spec fn obeys_from_spec() -> bool {
        true
    }

    closed spec fn from_spec(qn: Qn) -> Self {
        Lm { l: qn.l, m: qn.m }
    }
}

/// Dropping `m` (resp. `n`) from valid quantum numbers gives a valid [`Nl`] (resp. [`Lm`])
/// with the same remaining values.
pub proof fn lemma_projections(qn: Qn)
    ensures
        <Nl as vstd::std_specs::convert::FromSpec<Qn>>::from_spec(qn)@ == (qn@.0, qn@.1),
        <Lm as vstd::std_specs::convert::FromSpec<Qn>>::from_spec(qn)@ == (qn@.1, qn@.2),
{
}

} // verus!
