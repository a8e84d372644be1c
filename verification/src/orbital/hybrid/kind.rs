//! Kinds of hybrid orbitals: validation of their declaration, and their names (ex. `sp³`).
use std::collections::HashMap;
use vstd::prelude::*;
use vstd::string::*;
use vstd::std_specs::hash::spec_hash_map_iter;
use vstd::std_specs::iter::IteratorSpec;
use crate::orbital::atomic::{subshell_letter, subshell_name};
use crate::orbital::quantum_numbers::Qn;
use crate::utils::{decimal, push_decimal};
use crate::utils::sup_sub_string::{
    lemma_render_add, lemma_unicode_superscript_decimal, render, SupSubFormat, SupSubKind,
    SupSubString,
};

verus! {

broadcast use vstd::std_specs::hash::group_hash_axioms;

/// Error type describing invalid values passed to the constructor of a kind of hybrid orbital.
#[derive(PartialEq, Eq, Debug, Clone, Copy, Structural)]
pub enum InvalidKindError {
    /// Kind is empty.
    Empty,
    /// Kind has the incorrect number of linear combinations.
    IncorrectLength { expected: usize, actual: usize },
    /// Kind has an invalid value of `n` (zero or too small for the `l` values declared).
    InvalidN(u32),
    /// Kind contained an orbital with a value of `n` different than declared.
    UnexpectedN(u32),
}

/// The total number of orbitals mixed: the sum of the counts of a mixture given as pairs
/// `(l, count)`.
pub open spec fn total_count(mixture: Seq<(u32, u32)>) -> nat
    decreases mixture.len(),
{
    if mixture.len() == 0 {
        0
    } else {
        total_count(mixture.drop_last()) + mixture.last().1 as nat
    }
}

/// The largest `l` of a mixture given as pairs `(l, count)` (0 when empty).
pub open spec fn max_l(mixture: Seq<(u32, u32)>) -> nat
    decreases mixture.len(),
{
    if mixture.len() == 0 {
        0
    } else {
        let rest = max_l(mixture.drop_last());
        if mixture.last().0 > rest {
            mixture.last().0 as nat
        } else {
            rest
        }
    }
}

/// Every orbital of every linear combination has principal quantum number `n`.
pub open spec fn all_have_n(combinations: Seq<Seq<(u32, u32, i32)>>, n: u32) -> bool {
    forall|i: int, j: int|
        0 <= i < combinations.len() && 0 <= j < combinations[i].len() ==> #[trigger] combinations[i][j].0
            == n
}

/// The orbital at `(i, j)` is the first, in order, whose principal quantum number is not `n`,
/// and its principal quantum number is `x`.
pub open spec fn first_other_n_at(
    combinations: Seq<Seq<(u32, u32, i32)>>,
    n: u32,
    i: int,
    j: int,
    x: u32,
) -> bool {
    &&& 0 <= i < combinations.len()
    &&& 0 <= j < combinations[i].len()
    &&& combinations[i][j].0 == x
    &&& x != n
    &&& forall|a: int, b: int|
        0 <= a < i && 0 <= b < combinations[a].len() ==> #[trigger] combinations[a][b].0 == n
    &&& forall|b: int| 0 <= b < j ==> #[trigger] combinations[i][b].0 == n
}

/// `x` is the principal quantum number of the first orbital, in order, whose principal quantum
/// number is not `n`.
pub open spec fn is_first_other_n(combinations: Seq<Seq<(u32, u32, i32)>>, n: u32, x: u32) -> bool {
    exists|i: int, j: int| first_other_n_at(combinations, n, i, j, x)
}

/// The views of the quantum numbers of each linear combination.
pub open spec fn combination_views(combinations: Seq<Vec<Qn>>) -> Seq<Seq<(u32, u32, i32)>> {
    combinations.map_values(|c: Vec<Qn>| c@.map_values(|q: Qn| q@))
}

/// Validate the declaration of a kind of hybrid orbital, its mixture given as pairs `(l, count)`.
fn check_entries(n: u32, mixture: &Vec<(u32, u32)>, combinations: &Vec<Vec<Qn>>) -> (r: Result<
    (),
    InvalidKindError,
>)
    requires
        total_count(mixture@) <= u32::MAX,
    ensures
        mixture@.len() == 0 || combinations@.len() == 0 ==> r == Err::<(), InvalidKindError>(
            InvalidKindError::Empty,
        ),
        mixture@.len() > 0 && combinations@.len() > 0 && total_count(mixture@)
            != combinations@.len() ==> r == Err::<(), InvalidKindError>(
            InvalidKindError::IncorrectLength {
                expected: total_count(mixture@) as usize,
                actual: combinations@.len() as usize,
            },
        ),
        mixture@.len() > 0 && combinations@.len() > 0 && total_count(mixture@)
            == combinations@.len() && (n == 0 || n <= max_l(mixture@)) ==> r == Err::<
            (),
            InvalidKindError,
        >(InvalidKindError::InvalidN(n)),
        mixture@.len() > 0 && combinations@.len() > 0 && total_count(mixture@)
            == combinations@.len() && n > 0 && n > max_l(mixture@) ==> (r is Ok <==> all_have_n(
            combination_views(combinations@),
            n,
        )),
        mixture@.len() > 0 && combinations@.len() > 0 && total_count(mixture@)
            == combinations@.len() && n > 0 && n > max_l(mixture@) ==> (r is Ok || r matches Err(
            InvalidKindError::UnexpectedN(_),
        )),
        r matches Err(InvalidKindError::UnexpectedN(x)) ==> is_first_other_n(
            combination_views(combinations@),
            n,
            x,
        ),
{
    if mixture.len() == 0 || combinations.len() == 0 {
        return Err(InvalidKindError::Empty);
    }
    let mut expected: u32 = 0;
    let mut max: u32 = 0;
    let mut k: usize = 0;
    while k < mixture.len()
        invariant
            k <= mixture@.len(),
            total_count(mixture@) <= u32::MAX,
            expected == total_count(mixture@.take(k as int)),
            max == max_l(mixture@.take(k as int)),
        decreases mixture@.len() - k,
    {
        proof {
            assert(mixture@.take(k + 1).drop_last() =~= mixture@.take(k as int));
            lemma_total_count_prefix(mixture@, k + 1);
        }
        expected = expected + mixture[k].1;
        if mixture[k].0 > max {
            max = mixture[k].0;
        }
        k = k + 1;
    }
    proof {
        assert(mixture@.take(k as int) =~= mixture@);
    }
    let expected_lc_count = expected as usize;
    if expected_lc_count != combinations.len() {
        return Err(
            InvalidKindError::IncorrectLength {
                expected: expected_lc_count,
                actual: combinations.len(),
            },
        );
    }
    if n == 0 || n <= max {
        return Err(InvalidKindError::InvalidN(n));
    }
    let ghost combos = combination_views(combinations@);
    let mut i: usize = 0;
    while i < combinations.len()
        invariant
            i <= combinations@.len(),
            mixture@.len() > 0,
            combinations@.len() > 0,
            total_count(mixture@) == combinations@.len(),
            n > 0,
            n > max_l(mixture@),
            combos == combination_views(combinations@),
            forall|a: int, b: int|
                0 <= a < i && 0 <= b < combos[a].len() ==> #[trigger] combos[a][b].0 == n,
        decreases combinations@.len() - i,
    {
        let combination = &combinations[i];
        let mut j: usize = 0;
        while j < combination.len()
            invariant
                i < combinations@.len(),
                j <= combination@.len(),
                mixture@.len() > 0,
                combinations@.len() > 0,
                total_count(mixture@) == combinations@.len(),
                n > 0,
                n > max_l(mixture@),

                *combination == combinations@[i as int],
                combos == combination_views(combinations@),
                forall|a: int, b: int|
                    0 <= a < i && 0 <= b < combos[a].len() ==> #[trigger] combos[a][b].0 == n,
                forall|b: int| 0 <= b < j ==> #[trigger] combos[i as int][b].0 == n,
            decreases combination@.len() - j,
        {
            let qn_n = combination[j].n();
            proof {
                assert(combos[i as int][j as int] == combination@[j as int]@);
            }
            if qn_n != n {
                proof {
                    assert(first_other_n_at(combos, n, i as int, j as int, qn_n));
                    assert(first_other_n_at(
                        combination_views(combinations@),
                        n,
                        i as int,
                        j as int,
                        qn_n,
                    ));
                    assert(is_first_other_n(combination_views(combinations@), n, qn_n));
                    assert(!all_have_n(combos, n)) by {
                        assert(combos[i as int][j as int].0 != n);
                    }
                }
                return Err(InvalidKindError::UnexpectedN(qn_n));
            }
            j = j + 1;
        }
        i = i + 1;
    }
    Ok(())
}

proof fn lemma_total_count_prefix(mixture: Seq<(u32, u32)>, k: int)
    requires
        0 <= k <= mixture.len(),
    ensures
        total_count(mixture.take(k)) <= total_count(mixture),
    decreases mixture.len() - k,
{
    if k < mixture.len() {
        lemma_total_count_prefix(mixture, k + 1);
        assert(mixture.take(k + 1).drop_last() =~= mixture.take(k));
    } else {
        assert(mixture.take(k) =~= mixture);
    }
}

/// The entries are strictly increasing in `l`.
pub open spec fn sorted_by_l(s: Seq<(u32, u32)>) -> bool {
    forall|i: int, j: int| 0 <= i < j < s.len() ==> (#[trigger] s[i]).0 < (#[trigger] s[j]).0
}

/// No two entries share an `l`.
pub open spec fn distinct_l(s: Seq<(u32, u32)>) -> bool {
    forall|i: int, j: int| 0 <= i < j < s.len() ==> (#[trigger] s[i]).0 != (#[trigger] s[j]).0
}

/// The mixture's entries in order of increasing `l`.
fn sorted_by_azimuthal(mixture: &Vec<(u32, u32)>) -> (r: Vec<(u32, u32)>)
    requires
        distinct_l(mixture@),
    ensures
        r@.len() == mixture@.len(),
        sorted_by_l(r@),
        forall|e: (u32, u32)| #[trigger] r@.contains(e) <==> mixture@.contains(e),
{
    let mut res: Vec<(u32, u32)> = Vec::new();
    let mut k: usize = 0;
    while k < mixture.len()
        invariant
            k <= mixture@.len(),
            distinct_l(mixture@),
            res@.len() == k,
            sorted_by_l(res@),
            forall|e: (u32, u32)| #[trigger] res@.contains(e) <==> mixture@.take(k as int).contains(e),
        decreases mixture@.len() - k,
    {
        let e = mixture[k];
        let mut p: usize = 0;
        while p < res.len() && res[p].0 < e.0
            invariant
                p <= res@.len(),
                forall|q: int| 0 <= q < p ==> (#[trigger] res@[q]).0 < e.0,
            decreases res@.len() - p,
        {
            p = p + 1;
        }
        proof {
            // No entry already placed has the key of `e`.
            assert forall|q: int| 0 <= q < res@.len() implies (#[trigger] res@[q]).0 != e.0 by {
                assert(res@.contains(res@[q]));
                assert(mixture@.take(k as int).contains(res@[q]));
                let w = choose|w: int| 0 <= w < k && #[trigger] mixture@.take(k as int)[w] == res@[q];
                assert(mixture@[w] == res@[q]);
            }
        }
        let ghost before = res@;
        res.insert(p, e);
        proof {
            assert(res@ == before.insert(p as int, e));
            assert forall|i: int, j: int| 0 <= i < j < res@.len() implies (#[trigger] res@[i]).0
                < (#[trigger] res@[j]).0 by {
                if j < p {
                } else if i < p && j == p {
                } else if i < p {
                    assert(res@[j] == before[j - 1]);
                } else if i == p {
                    assert(res@[j] == before[j - 1]);
                    if p < before.len() {
                        assert(before[p as int].0 >= e.0);
                        assert(before[p as int].0 != e.0);
                        if j - 1 > p {
                            assert(before[p as int].0 < before[j - 1].0);
                        }
                    }
                } else {
                    assert(res@[i] == before[i - 1]);
                    assert(res@[j] == before[j - 1]);
                }
            }
            assert(mixture@.take(k + 1) =~= mixture@.take(k as int).push(e));
            assert forall|x: (u32, u32)| #[trigger] res@.contains(x) <==> mixture@.take(
                k + 1,
            ).contains(x) by {
                if res@.contains(x) {
                    let w = choose|w: int| 0 <= w < res@.len() && res@[w] == x;
                    if w < p {
                        assert(before.contains(before[w]));
                    } else if w > p {
                        assert(before.contains(before[w - 1]));
                    }
                    if x != e {
                        assert(mixture@.take(k as int).contains(x));
                        let v = choose|v: int| 0 <= v < k && #[trigger] mixture@.take(k as int)[v] == x;
                        assert(mixture@.take(k + 1)[v] == x);
                    } else {
                        assert(mixture@.take(k + 1)[k as int] == x);
                    }
                }
                if mixture@.take(k + 1).contains(x) {
                    let v = choose|v: int| 0 <= v < k + 1 && #[trigger] mixture@.take(k + 1)[v] == x;
                    if v < k {
                        assert(mixture@.take(k as int)[v] == x);
                        assert(before.contains(x));
                        let w = choose|w: int| 0 <= w < before.len() && before[w] == x;
                        if w < p {
                            assert(res@[w] == x);
                        } else {
                            assert(res@[w + 1] == x);
                        }
                    } else {
                        assert(res@[p as int] == x);
                    }
                }
            }
        }
        k = k + 1;
    }
    proof {
        assert(mixture@.take(k as int) =~= mixture@);
    }
    res
}

/// The runs naming one entry `(l, count)`: the subshell letter of `l` (`<?>` when unknown),
/// then `count` as a superscript unless it is 1.
pub open spec fn entry_runs(e: (u32, u32)) -> Seq<(SupSubKind, Seq<char>)> {
    seq![
        (SupSubKind::Normal, match subshell_letter(e.0) {
            Some(letter) => letter,
            None => "<?>"@,
        }),
    ] + if e.1 != 1 {
        seq![(SupSubKind::Superscript, decimal(e.1 as nat))]
    } else {
        Seq::empty()
    }
}

/// The runs naming a mixture whose entries are in the given order.
pub open spec fn mixture_runs(s: Seq<(u32, u32)>) -> Seq<(SupSubKind, Seq<char>)>
    decreases s.len(),
{
    if s.len() == 0 {
        Seq::empty()
    } else {
        mixture_runs(s.drop_last()) + entry_runs(s.last())
    }
}

/// The name of a mixture whose entries are given in order.
fn name_of_entries(entries: &Vec<(u32, u32)>) -> (r: SupSubString)
    ensures
        r@ == mixture_runs(entries@),
{
    let mut kind = SupSubString::new();
    let mut i: usize = 0;
    while i < entries.len()
        invariant
            i <= entries@.len(),
            kind@ == mixture_runs(entries@.take(i as int)),
        decreases entries@.len() - i,
    {
        let (l, count) = entries[i];
        let ghost before = kind@;
        match subshell_name(l) {
            Some(letter) => kind.push_nrm(letter),
            None => kind.push_nrm("<?>"),
        }
        if count != 1 {
            let mut digits = String::new();
            push_decimal(&mut digits, count as u64);
            kind.push_sup(digits.as_str());
        }
        proof {
            assert(entries@.take(i + 1).drop_last() =~= entries@.take(i as int));
            assert(kind@ =~= before + entry_runs((l, count)));
        }
        i = i + 1;
    }
    proof {
        assert(entries@.take(i as int) =~= entries@);
    }
    kind
}

/// The name of every mixture renders in Unicode: subshell letters are normal text and counts
/// are decimal superscripts.
pub proof fn lemma_mixture_name_renders(s: Seq<(u32, u32)>)
    ensures
        render(mixture_runs(s), SupSubFormat::Unicode) is Some,
    decreases s.len(),
{
    if s.len() > 0 {
        let e = s.last();
        lemma_mixture_name_renders(s.drop_last());
        lemma_render_add(mixture_runs(s.drop_last()), entry_runs(e), SupSubFormat::Unicode);
        let letter = seq![
            (SupSubKind::Normal, match subshell_letter(e.0) {
                Some(letter) => letter,
                None => "<?>"@,
            }),
        ];
        assert(render(letter, SupSubFormat::Unicode) is Some) by {
            assert(letter.drop_last() =~= Seq::<(SupSubKind, Seq<char>)>::empty());
            assert(render(letter.drop_last(), SupSubFormat::Unicode) is Some);
            assert(letter.last().0 == SupSubKind::Normal);
        }
        if e.1 != 1 {
            let sup = seq![(SupSubKind::Superscript, decimal(e.1 as nat))];
            lemma_unicode_superscript_decimal(e.1 as nat);
            assert(render(sup, SupSubFormat::Unicode) is Some) by {
                assert(sup.drop_last() =~= Seq::<(SupSubKind, Seq<char>)>::empty());
                assert(render(sup.drop_last(), SupSubFormat::Unicode) is Some);
                assert(sup.last() == (SupSubKind::Superscript, decimal(e.1 as nat)));
            }
            lemma_render_add(letter, sup, SupSubFormat::Unicode);
            assert(entry_runs(e) == letter + sup);
        } else {
            assert(entry_runs(e) =~= letter);
        }
    }
}

/// `s` lists the entries `(l, count)` of the mixture `m` in order of increasing `l`.
pub open spec fn lists_mixture(s: Seq<(u32, u32)>, m: Map<u32, u32>) -> bool {
    &&& sorted_by_l(s)
    &&& forall|e: (u32, u32)| #[trigger] s.contains(e) <==> (m.contains_key(e.0) && m[e.0] == e.1)
}

/// The entries `(l, count)` of the mixture `m` in order of increasing `l`.
pub open spec fn sorted_entries(m: Map<u32, u32>) -> Seq<(u32, u32)> {
    choose|s: Seq<(u32, u32)>| lists_mixture(s, m)
}

/// Two sequences sorted by `l` with the same entries are equal.
proof fn lemma_sorted_same_entries(s: Seq<(u32, u32)>, t: Seq<(u32, u32)>)
    requires
        sorted_by_l(s),
        sorted_by_l(t),
        forall|e: (u32, u32)| #[trigger] s.contains(e) <==> t.contains(e),
    ensures
        s == t,
    decreases s.len(),
{
    if s.len() == 0 {
        if t.len() > 0 {
            assert(t.contains(t[0]));
            assert(s.contains(t[0]));
            assert(false);
        }
        assert(s =~= t);
    } else {
        assert(s.contains(s[0]));
        assert(t.contains(s[0]));
        assert(t.len() > 0);
        assert(t.contains(t[0]));
        assert(s.contains(t[0]));
        let i = choose|i: int| 0 <= i < s.len() && s[i] == t[0];
        let j = choose|j: int| 0 <= j < t.len() && t[j] == s[0];
        if j > 0 {
            assert(t[0].0 < t[j].0);
            if i > 0 {
                assert(s[0].0 < s[i].0);
            }
            assert(false);
        }
        assert(s[0] == t[0]);
        let s2 = s.drop_first();
        let t2 = t.drop_first();
        assert forall|e: (u32, u32)| #[trigger] s2.contains(e) implies t2.contains(e) by {
            let k = choose|k: int| 0 <= k < s2.len() && s2[k] == e;
            assert(s[k + 1] == e);
            assert(s.contains(e));
            assert(s[0].0 < e.0);
            assert(t.contains(e));
            let w = choose|w: int| 0 <= w < t.len() && t[w] == e;
            assert(w != 0);
            assert(t2[w - 1] == e);
        }
        assert forall|e: (u32, u32)| #[trigger] t2.contains(e) implies s2.contains(e) by {
            let k = choose|k: int| 0 <= k < t2.len() && t2[k] == e;
            assert(t[k + 1] == e);
            assert(t.contains(e));
            assert(t[0].0 < e.0);
            assert(s.contains(e));
            let w = choose|w: int| 0 <= w < s.len() && s[w] == e;
            assert(w != 0);
            assert(s2[w - 1] == e);
        }
        lemma_sorted_same_entries(s2, t2);
        assert(s =~= seq![s[0]] + s2);
        assert(t =~= seq![t[0]] + t2);
    }
}

/// A mixture is listed in order of increasing `l` in one way only: by its sorted entries.
pub proof fn lemma_lists_mixture_unique(s: Seq<(u32, u32)>, m: Map<u32, u32>)
    requires
        lists_mixture(s, m),
    ensures
        sorted_entries(m) == s,
{
    let t = sorted_entries(m);
    assert(lists_mixture(t, m));
    assert forall|e: (u32, u32)| #[trigger] s.contains(e) <==> t.contains(e) by {
        assert(s.contains(e) <==> (m.contains_key(e.0) && m[e.0] == e.1));
        assert(t.contains(e) <==> (m.contains_key(e.0) && m[e.0] == e.1));
    }
    lemma_sorted_same_entries(s, t);
}

/// The entries of a mixture, in the order in which the map hands them out.
fn collect_entries(m: &HashMap<u32, u32>) -> (r: Vec<(u32, u32)>)
    ensures
        r@.len() == m@.dom().len(),
        forall|e: (u32, u32)| #[trigger] r@.contains(e) <==> (m@.contains_key(e.0) && m@[e.0] == e.1),
        distinct_l(r@),
{
    let ghost v = spec_hash_map_iter(m).remaining();
    let mut r: Vec<(u32, u32)> = Vec::new();
    for (l, c) in it: m.iter()
        invariant
            it.seq() == v,
            v.len() == m@.dom().len(),
            r@.len() == it.index(),
            forall|i: int| 0 <= i < it.index() ==> r@[i] == (*v[i].0, *v[i].1),
    {
        r.push((*l, *c));
    }
    proof {
        assert forall|e: (u32, u32)| #[trigger] r@.contains(e) implies (m@.contains_key(e.0)
            && m@[e.0] == e.1) by {
            let i = choose|i: int| 0 <= i < r@.len() && r@[i] == e;
            assert(m@.contains_key(*v[i].0));
        }
        assert forall|e: (u32, u32)| m@.contains_key(e.0) && m@[e.0] == e.1 implies #[trigger] r@.contains(
            e,
        ) by {
            assert(v.contains((&e.0, &m@[e.0])));
            let i = choose|i: int| 0 <= i < v.len() && v[i] == (&e.0, &m@[e.0]);
            assert(r@[i] == e);
        }
        assert forall|i: int, j: int| 0 <= i < j < r@.len() implies (#[trigger] r@[i]).0 != (
        #[trigger] r@[j]).0 by {
            assert(v.no_duplicates());
            assert(v[i] != v[j]);
            assert(m@.contains_key(*v[i].0));
            assert(m@.contains_key(*v[j].0));
        }
    }
    r
}

/// The entries of a mixture in order of increasing `l`.
fn mixture_entries(m: &HashMap<u32, u32>) -> (r: Vec<(u32, u32)>)
    ensures
        r@ == sorted_entries(m@),
        lists_mixture(r@, m@),
        r@.len() == m@.dom().len(),
{
    let entries = collect_entries(m);
    let sorted = sorted_by_azimuthal(&entries);
    proof {
        assert forall|e: (u32, u32)| #[trigger] sorted@.contains(e) <==> (m@.contains_key(e.0)
            && m@[e.0] == e.1) by {
            assert(sorted@.contains(e) <==> entries@.contains(e));
        }
        lemma_lists_mixture_unique(sorted@, m@);
    }
    sorted
}

/// The outcome of validating the declaration of a kind of hybrid orbital: its principal quantum
/// number `n`, its mixture (the number of orbitals of each azimuthal quantum number `l`), and
/// the quantum numbers of the orbitals in each of its linear combinations. The checks are made
/// in this order: neither the mixture nor the combinations are empty; there are as many
/// combinations as the mixture counts orbitals; `n` exceeds every `l` of the mixture; every
/// orbital has principal quantum number `n` (the first one that does not is reported).
pub open spec fn validate_kind_result(
    n: u32,
    mixture: Map<u32, u32>,
    combinations: Seq<Seq<(u32, u32, i32)>>,
) -> Result<(), InvalidKindError> {
    let entries = sorted_entries(mixture);
    if mixture.dom().len() == 0 || combinations.len() == 0 {
        Err(InvalidKindError::Empty)
    } else if total_count(entries) != combinations.len() {
        Err(
            InvalidKindError::IncorrectLength {
                expected: total_count(entries) as usize,
                actual: combinations.len() as usize,
            },
        )
    } else if n == 0 || n <= max_l(entries) {
        Err(InvalidKindError::InvalidN(n))
    } else if all_have_n(combinations, n) {
        Ok(())
    } else {
        Err(InvalidKindError::UnexpectedN(choose|x: u32| is_first_other_n(combinations, n, x)))
    }
}

/// Only one orbital comes first among those whose principal quantum number is not `n`.
proof fn lemma_first_other_n_unique(combinations: Seq<Seq<(u32, u32, i32)>>, n: u32, x: u32, y: u32)
    requires
        is_first_other_n(combinations, n, x),
        is_first_other_n(combinations, n, y),
    ensures
        x == y,
{
    let (i, j) = choose|i: int, j: int| first_other_n_at(combinations, n, i, j, x);
    let (a, b) = choose|a: int, b: int| first_other_n_at(combinations, n, a, b, y);
    if i < a {
        assert(combinations[i][j].0 == n);
    } else if a < i {
        assert(combinations[a][b].0 == n);
    } else if j < b {
        assert(combinations[i][j].0 == n);
    } else if b < j {
        assert(combinations[a][b].0 == n);
    }
}

/// Validate the declaration of a kind of hybrid orbital (see [`validate_kind_result`]).
pub fn validate_kind(n: u32, mixture: &HashMap<u32, u32>, combinations: &Vec<Vec<Qn>>) -> (r: Result<
    (),
    InvalidKindError,
>)
    requires
        total_count(sorted_entries(mixture@)) <= u32::MAX,
    ensures
        r == validate_kind_result(n, mixture@, combination_views(combinations@)),
{
    let entries = mixture_entries(mixture);
    let r = check_entries(n, &entries, combinations);
    proof {
        let views = combination_views(combinations@);
        let e = sorted_entries(mixture@);
        assert(entries@ == e);
        let expect = validate_kind_result(n, mixture@, views);
        if mixture@.dom().len() == 0 || combinations@.len() == 0 {
            assert(r == expect);
        } else if total_count(e) != combinations@.len() {
            assert(r == expect);
        } else if n == 0 || n <= max_l(e) {
            assert(r == expect);
        } else if all_have_n(views, n) {
            assert(r is Ok);
        } else {
            if let Err(InvalidKindError::UnexpectedN(x)) = r {
                let y = choose|y: u32| is_first_other_n(views, n, y);
                lemma_first_other_n_unique(views, n, x, y);
            } else {
                assert(r is Err);
            }
        }
    }
    match r {
        Ok(_) => Ok(()),
        Err(x) => Err(x),
    }
}

/// The declaration of a kind of hybrid orbital passes [`validate_kind`].
pub open spec fn valid_kind(n: u32, mixture: Map<u32, u32>, combinations: Seq<Seq<(u32, u32, i32)>>) -> bool {
    &&& mixture.dom().len() > 0
    &&& combinations.len() > 0
    &&& total_count(sorted_entries(mixture)) == combinations.len()
    &&& n > 0
    &&& n > max_l(sorted_entries(mixture))
    &&& all_have_n(combinations, n)
}

/// A kind of hybrid orbital, as seen by its view.
pub struct KindView {
    /// The principal quantum number of all orbitals.
    pub n: u32,
    /// The number of orbitals of each azimuthal quantum number `l` mixed.
    pub mixture: Map<u32, u32>,
    /// The type of symmetry of the kind.
    pub symmetry: Seq<char>,
    /// Extra information about the kind.
    pub description: Option<Seq<char>>,
    /// The quantum numbers of the orbitals of each linear combination.
    pub combinations: Seq<Seq<(u32, u32, i32)>>,
}

/// A structure describing all hybrid orbitals of a certain kind: the principal quantum number
/// of its orbitals, its mixture (how many orbitals of each azimuthal quantum number `l` are
/// mixed), a description of its symmetry, extra information, and the quantum numbers of the
/// orbitals of each of its linear combinations.
///
/// # Invariants
///
/// * The mixture is not empty, and neither are the linear combinations.
/// * The mixture counts as many orbitals as there are linear combinations.
/// * `n` is nonzero and exceeds the `l` values of the mixture.
/// * All orbitals in linear combinations have principal quantum number `n`.
#[derive(Debug)]
pub struct Kind {
    n: u32,
    mixture: HashMap<u32, u32>,
    symmetry: String,
    description: Option<String>,
    combinations: Vec<Vec<Qn>>,
}

/// The view of an optional string.
pub open spec fn option_string_view(s: Option<String>) -> Option<Seq<char>> {
    match s {
        Some(t) => Some(t@),
        None => None,
    }
}

impl View for Kind {
    type V = KindView;

    closed spec fn view(&self) -> KindView {
        KindView {
            n: self.n,
            mixture: self.mixture@,
            symmetry: self.symmetry@,
            description: option_string_view(self.description),
            combinations: combination_views(self.combinations@),
        }
    }
}

impl Kind {
    #[verifier::type_invariant]
    spec fn inv(self) -> bool {
        valid_kind(self.n, self.mixture@, combination_views(self.combinations@))
    }

    /// Construct a new `Kind`, or the [error](InvalidKindError) of [`validate_kind`] when its
    /// invariants would not hold.
    pub fn new(
        n: u32,
        mixture: HashMap<u32, u32>,
        symmetry: String,
        description: Option<String>,
        combinations: Vec<Vec<Qn>>,
    ) -> (r: Result<Self, InvalidKindError>)
        requires
            total_count(sorted_entries(mixture@)) <= u32::MAX,
        ensures
            r is Ok <==> valid_kind(n, mixture@, combination_views(combinations@)),
            r matches Ok(k) ==> k@ == (KindView {
                n,
                mixture: mixture@,
                symmetry: symmetry@,
                description: option_string_view(description),
                combinations: combination_views(combinations@),
            }),
            r matches Err(e) ==> validate_kind_result(n, mixture@, combination_views(combinations@))
                == Err::<(), InvalidKindError>(e),
    {
        let checked = validate_kind(n, &mixture, &combinations);
        match checked {
            Err(e) => Err(e),
            Ok(()) => Ok(Kind { n, mixture, symmetry, description, combinations }),
        }
    }

    /// The principal quantum number `n` of all orbitals.
    pub fn n(&self) -> (r: u32)
        ensures
            r == self@.n,
    {
        self.n
    }

    /// The number and type of orbitals (by azimuthal quantum number `l`) mixed to form this
    /// kind.
    pub fn mixture(&self) -> (r: &HashMap<u32, u32>)
        ensures
            r@ == self@.mixture,
    {
        &self.mixture
    }

    /// The type of symmetry this kind possesses.
    pub fn symmetry(&self) -> (r: &String)
        ensures
            r@ == self@.symmetry,
    {
        &self.symmetry
    }

    /// Extra information about this kind.
    pub fn description(&self) -> (r: &Option<String>)
        ensures
            option_string_view(*r) == self@.description,
    {
        &self.description
    }

    /// Replace the extra information about this kind.
    pub fn set_description(&mut self, description: Option<String>)
        ensures
            final(self)@.description == option_string_view(description),
            final(self)@.n == old(self)@.n,
            final(self)@.mixture == old(self)@.mixture,
            final(self)@.symmetry == old(self)@.symmetry,
            final(self)@.combinations == old(self)@.combinations,
    {
        proof {
            use_type_invariant(&*self);
        }
        self.description = description;
    }

    /// The quantum numbers of the orbitals of each linear combination forming this kind.
    pub fn combinations(&self) -> (r: &Vec<Vec<Qn>>)
        ensures
            combination_views(r@) == self@.combinations,
    {
        &self.combinations
    }

    /// Give the number of linear combinations contained in this kind.
    pub fn count(&self) -> (r: usize)
        ensures
            r == self@.combinations.len(),
    {
        self.combinations.len()
    }

    /// Give the first linear combination in this kind.
    pub fn archetype(&self) -> (r: &Vec<Qn>)
        ensures
            r@.map_values(|q: Qn| q@) == self@.combinations[0],
    {
        proof {
            use_type_invariant(self);
        }
        &self.combinations[0]
    }

    /// Give the name of the mixture, ex. `sp³`: for each `l` in increasing order, its subshell
    /// letter (`<?>` when it has none), followed by its count as a superscript when the count
    /// is not 1.
    pub fn mixture_name(&self) -> (r: SupSubString)
        ensures
            r@ == mixture_runs(sorted_entries(self@.mixture)),
    {
        let entries = mixture_entries(&self.mixture);
        name_of_entries(&entries)
    }

    /// The name of the mixture in Unicode, followed by the description in parentheses when
    /// there is one.
    pub fn to_string(&self) -> (r: String)
        ensures
            r@ == kind_text(self@),
    {
        let name = self.mixture_name();
        proof {
            lemma_mixture_name_renders(sorted_entries(self@.mixture));
        }
        let mut out = match name.format(SupSubFormat::Unicode) {
            Some(text) => text,
            None => String::new(),
        };
        match &self.description {
            Some(desc) => {
                out.append(" (");
                out.append(desc.as_str());
                out.append(")");
            },
            None => {},
        }
        out
    }
}

/// The text of a kind: the name of its mixture in Unicode, followed by its description in
/// parentheses when it has one.
pub open spec fn kind_text(k: KindView) -> Seq<char> {
    render(mixture_runs(sorted_entries(k.mixture)), SupSubFormat::Unicode)->0 + match k.description {
        Some(d) => " ("@ + d + ")"@,
        None => Seq::empty(),
    }
}


} // verus!
