//! Molecular orbitals formed as linear combinations of atomic orbitals: their geometries and
//! their names.
use vstd::prelude::*;
use vstd::string::*;
use crate::orbital::atomic::real_orbital::{name_qn, real_name_text};
use crate::orbital::quantum_numbers::Qn;
use crate::utils::{replace_all, replaced};

verus! {

/// The geometry of a bond between two atoms.
#[derive(Clone, Copy, PartialEq, Eq, Debug, Structural)]
pub enum Geometry {
    Sigma,
    Pi,
}

/// The symbol of a geometry: `σ` or `π`.
pub open spec fn geometry_symbol(g: Geometry) -> Seq<char> {
    match g {
        Geometry::Sigma => "σ"@,
        Geometry::Pi => "π"@,
    }
}

impl Geometry {
    /// The symbol of the geometry: `σ` or `π`.
    pub fn to_string(self) -> (r: String)
        ensures
            r@ == geometry_symbol(self),
    {
        match self {
            Geometry::Sigma => String::from_str("σ"),
            Geometry::Pi => String::from_str("π"),
        }
    }
}

/// The chemical elements of the first two periods.
#[derive(Clone, Copy, PartialEq, Eq, Hash, Debug, Structural)]
pub enum Element {
    H,
    He,
    Li,
    Be,
    B,
    C,
    N,
    O,
    F,
    Ne,
}

/// The symbol of an element.
pub open spec fn element_symbol(e: Element) -> Seq<char> {
    match e {
        Element::H => "H"@,
        Element::He => "He"@,
        Element::Li => "Li"@,
        Element::Be => "Be"@,
        Element::B => "B"@,
        Element::C => "C"@,
        Element::N => "N"@,
        Element::O => "O"@,
        Element::F => "F"@,
        Element::Ne => "Ne"@,
    }
}

impl Element {
    /// The symbol of the element.
    pub fn to_string(self) -> (r: String)
        ensures
            r@ == element_symbol(self),
    {
        match self {
            Element::H => String::from_str("H"),
            Element::He => String::from_str("He"),
            Element::Li => String::from_str("Li"),
            Element::Be => String::from_str("Be"),
            Element::B => String::from_str("B"),
            Element::C => String::from_str("C"),
            Element::N => String::from_str("N"),
            Element::O => String::from_str("O"),
            Element::F => String::from_str("F"),
            Element::Ne => String::from_str("Ne"),
        }
    }
}

/// The atomic orbitals of one atom of a linear combination: the element and the quantum
/// numbers of the orbitals (their weights and the atom's position are floating-point numbers,
/// kept outside this library).
pub struct LcaoAtom {
    pub elem: Element,
    pub orbitals: Vec<Qn>,
}

/// A linear combination of atomic orbitals forming a molecular orbital: whether it is bonding,
/// the geometry of the bond, and its atoms.
pub struct Lcao {
    pub bonding: bool,
    pub geometry: Geometry,
    pub combination: Vec<LcaoAtom>,
}

impl Lcao {
    /// The name of the molecular orbital (see [`molecular_name`]) without subscript tags:
    /// `<sub>` becomes a space and `</sub>` is dropped.
    pub fn to_string(&self) -> (r: String)
        requires
            self.combination@.len() > 0,
        ensures
            r@ == replaced(
                replaced(
                    molecular_name(self.combination@, self.geometry, self.bonding),
                    "<sub>"@,
                    " "@,
                ),
                "</sub>"@,
                ""@,
            ),
    {
        let name = Molecular::name(self);
        proof {
            reveal_strlit("<sub>");
            reveal_strlit("</sub>");
        }
        let spaced = replace_all(name.as_str(), "<sub>", " ");
        replace_all(spaced.as_str(), "</sub>", "")
    }
}

/// Molecular orbitals, built as linear combinations of atomic orbitals; their evaluation is
/// floating-point arithmetic, done outside this library.
pub struct Molecular;

/// The atomic orbitals of the atoms, in order, each with the element of its atom.
pub open spec fn atomic_orbitals(atoms: Seq<LcaoAtom>) -> Seq<(Qn, Element)>
    decreases atoms.len(),
{
    if atoms.len() == 0 {
        Seq::empty()
    } else {
        let last = atoms.last();
        atomic_orbitals(atoms.drop_last()) + last.orbitals@.map_values(|q: Qn| (q, last.elem))
    }
}

/// The distinct items of `s`, each where it first occurs.
pub open spec fn unique_in_order<T>(s: Seq<T>) -> Seq<T>
    decreases s.len(),
{
    if s.len() == 0 {
        Seq::empty()
    } else {
        let u = unique_in_order(s.drop_last());
        if u.contains(s.last()) {
            u
        } else {
            u.push(s.last())
        }
    }
}

/// All atoms are of the same element.
pub open spec fn same_element(atoms: Seq<LcaoAtom>) -> bool {
    forall|i: int, j: int| 0 <= i < atoms.len() && 0 <= j < atoms.len() ==> #[trigger] atoms[i].elem
        == #[trigger] atoms[j].elem
}

/// The short name of a molecular orbital: the symbol of its geometry, followed by `*` when it
/// is antibonding.
pub open spec fn orbital_type_text(geometry: Geometry, bonding: bool) -> Seq<char> {
    geometry_symbol(geometry) + if bonding {
        Seq::empty()
    } else {
        "*"@
    }
}

/// The name of one atomic orbital of a molecular orbital, followed by its element when the
/// atoms differ.
pub open spec fn term_text(x: (Qn, Element), with_element: bool) -> Seq<char> {
    real_name_text(x.0@) + if with_element {
        " ("@ + element_symbol(x.1) + ")"@
    } else {
        Seq::empty()
    }
}

/// The names of atomic orbitals, joined with ` + `.
pub open spec fn joined_terms(s: Seq<(Qn, Element)>, with_element: bool) -> Seq<char>
    decreases s.len(),
{
    if s.len() == 0 {
        Seq::empty()
    } else if s.len() == 1 {
        term_text(s[0], with_element)
    } else {
        joined_terms(s.drop_last(), with_element) + " + "@ + term_text(s.last(), with_element)
    }
}

/// The name of a molecular orbital: its short name, then in brackets the names of its distinct
/// atomic orbitals joined with ` + `, each followed by its element when the atoms differ, or
/// all followed by the common element when they do not (ex. `σ* [1s + 2p<sub>z</sub> (H)]`).
pub open spec fn molecular_name(atoms: Seq<LcaoAtom>, geometry: Geometry, bonding: bool) -> Seq<
    char,
> {
    let same = same_element(atoms);
    let character = joined_terms(unique_in_order(atomic_orbitals(atoms)), !same) + if same {
        " ("@ + element_symbol(atoms[0].elem) + ")"@
    } else {
        Seq::empty()
    };
    orbital_type_text(geometry, bonding) + " ["@ + character + "]"@
}

/// The element of the atoms is written once, after all atomic orbitals, exactly when every atom
/// is of the same element as the first; as soon as one atom differs, each atomic orbital is
/// followed by its own element and no common element is written.
pub proof fn lemma_molecular_name_elements(atoms: Seq<LcaoAtom>, geometry: Geometry, bonding: bool)
    requires
        atoms.len() > 0,
    ensures
        (exists|k: int| 0 <= k < atoms.len() && #[trigger] atoms[k].elem != atoms[0].elem) ==> molecular_name(
            atoms,
            geometry,
            bonding,
        ) == orbital_type_text(geometry, bonding) + " ["@ + joined_terms(
            unique_in_order(atomic_orbitals(atoms)),
            true,
        ) + "]"@,
        (forall|k: int| 0 <= k < atoms.len() ==> #[trigger] atoms[k].elem == atoms[0].elem) ==> molecular_name(
            atoms,
            geometry,
            bonding,
        ) == orbital_type_text(geometry, bonding) + " ["@ + joined_terms(
            unique_in_order(atomic_orbitals(atoms)),
            false,
        ) + " ("@ + element_symbol(atoms[0].elem) + ")"@ + "]"@,
{
    let terms = unique_in_order(atomic_orbitals(atoms));
    if exists|k: int| 0 <= k < atoms.len() && #[trigger] atoms[k].elem != atoms[0].elem {
        let k = choose|k: int| 0 <= k < atoms.len() && #[trigger] atoms[k].elem != atoms[0].elem;
        assert(!same_element(atoms)) by {
            assert(atoms[k].elem != atoms[0].elem);
        }
        assert(joined_terms(terms, true) + Seq::<char>::empty() =~= joined_terms(terms, true));
    } else {
        assert(same_element(atoms)) by {
            assert forall|i: int, j: int|
                0 <= i < atoms.len() && 0 <= j < atoms.len() implies #[trigger] atoms[i].elem
                == #[trigger] atoms[j].elem by {
                assert(atoms[i].elem == atoms[0].elem);
                assert(atoms[j].elem == atoms[0].elem);
            }
        }
    }
    assert(molecular_name(atoms, geometry, bonding) =~= orbital_type_text(geometry, bonding) + " ["@
        + joined_terms(terms, !same_element(atoms)) + (if same_element(atoms) {
        " ("@ + element_symbol(atoms[0].elem) + ")"@
    } else {
        Seq::empty()
    }) + "]"@);
}

impl Molecular {
    /// The short name of the molecular orbital (ex. `σ*`).
    pub fn orbital_type(params: &Lcao) -> (r: String)
        ensures
            r@ == orbital_type_text(params.geometry, params.bonding),
    {
        let mut s = params.geometry.to_string();
        if !params.bonding {
            s.append("*");
        }
        s
    }

    /// The distinct atomic orbitals of the molecular orbital, each with the element of its
    /// atom, in the order in which they first occur.
    pub fn unique_atomic_orbitals(params: &Lcao) -> (r: Vec<(Qn, Element)>)
        ensures
            r@ == unique_in_order(atomic_orbitals(params.combination@)),
    {
        let atoms = &params.combination;
        let mut res: Vec<(Qn, Element)> = Vec::new();
        let mut i: usize = 0;
        while i < atoms.len()
            invariant
                i <= atoms@.len(),
                res@ == unique_in_order(atomic_orbitals(atoms@.take(i as int))),
            decreases atoms@.len() - i,
        {
            let atom = &atoms[i];
            let ghost before = atomic_orbitals(atoms@.take(i as int));
            let mut j: usize = 0;
            while j < atom.orbitals.len()
                invariant
                    i < atoms@.len(),
                    *atom == atoms@[i as int],
                    j <= atom.orbitals@.len(),
                    res@ == unique_in_order(
                        before + atom.orbitals@.take(j as int).map_values(|q: Qn| (q, atom.elem)),
                    ),
                decreases atom.orbitals@.len() - j,
            {
                let x = (atom.orbitals[j], atom.elem);
                let ghost prefix = before + atom.orbitals@.take(j as int).map_values(
                    |q: Qn| (q, atom.elem),
                );
                let ghost next = before + atom.orbitals@.take(j + 1).map_values(
                    |q: Qn| (q, atom.elem),
                );
                proof {
                    assert(next =~= prefix.push(x));
                    assert(next.drop_last() =~= prefix);
                }
                let mut found = false;
                let mut k: usize = 0;
                while k < res.len()
                    invariant
                        k <= res@.len(),
                        found <==> exists|w: int| 0 <= w < k && res@[w] == x,
                    decreases res@.len() - k,
                {
                    if res[k].0 == x.0 && res[k].1 == x.1 {
                        found = true;
                    }
                    k = k + 1;
                }
                if !found {
                    proof {
                        assert(!res@.contains(x));
                    }
                    res.push(x);
                } else {
                    proof {
                        let w = choose|w: int| 0 <= w < k && res@[w] == x;
                        assert(res@.contains(x));
                    }
                }
                j = j + 1;
            }
            proof {
                assert(atom.orbitals@.take(atom.orbitals@.len() as int) =~= atom.orbitals@);
                assert(atoms@.take(i + 1).drop_last() =~= atoms@.take(i as int));
                assert(atoms@.take(i + 1).last() == atoms@[i as int]);
            }
            i = i + 1;
        }
        proof {
            assert(atoms@.take(atoms@.len() as int) =~= atoms@);
        }
        res
    }

    /// The name of the molecular orbital (see [`molecular_name`]).
    pub fn name(params: &Lcao) -> (r: String)
        requires
            params.combination@.len() > 0,
        ensures
            r@ == molecular_name(params.combination@, params.geometry, params.bonding),
    {
        let atoms = &params.combination;
        let first = atoms[0].elem;
        let mut same = true;
        let mut i: usize = 1;
        while i < atoms.len()
            invariant
                1 <= i <= atoms@.len(),
                first == atoms@[0].elem,
                same <==> forall|k: int| 0 <= k < i ==> #[trigger] atoms@[k].elem == first,
            decreases atoms@.len() - i,
        {
            if atoms[i].elem != first {
                same = false;
            }
            i = i + 1;
        }
        proof {
            if same {
                assert forall|a: int, b: int|
                    0 <= a < atoms@.len() && 0 <= b < atoms@.len() implies #[trigger] atoms@[a].elem
                    == #[trigger] atoms@[b].elem by {
                    assert(atoms@[a].elem == first);
                    assert(atoms@[b].elem == first);
                }
            } else {
                let k = choose|k: int| 0 <= k < atoms@.len() && atoms@[k].elem != first;
                assert(atoms@[k].elem != atoms@[0].elem);
            }
        }
        let unique = Self::unique_atomic_orbitals(params);
        let mut character = String::new();
        let mut j: usize = 0;
        while j < unique.len()
            invariant
                j <= unique@.len(),
                character@ == joined_terms(unique@.take(j as int), !same),
            decreases unique@.len() - j,
        {
            let (qn, elem) = unique[j];
            let ghost before = character@;
            if j > 0 {
                character.append(" + ");
            }
            let name = name_qn(qn);
            character.append(name.as_str());
            if !same {
                character.append(" (");
                let symbol = elem.to_string();
                character.append(symbol.as_str());
                character.append(")");
            }
            proof {
                let t = unique@.take(j + 1);
                assert(t.drop_last() =~= unique@.take(j as int));
                assert(t.last() == (qn, elem));
                if j == 0 {
                    assert(t.len() == 1);
                    assert(t[0] == (qn, elem));
                    assert(character@ =~= term_text((qn, elem), !same));
                } else {
                    assert(character@ =~= before + " + "@ + term_text((qn, elem), !same));
                }
            }
            j = j + 1;
        }
        proof {
            assert(unique@.take(unique@.len() as int) =~= unique@);
        }
        if same {
            character.append(" (");
            let symbol = first.to_string();
            character.append(symbol.as_str());
            character.append(")");
        }
        let mut out = Self::orbital_type(params);
        out.append(" [");
        out.append(character.as_str());
        out.append("]");
        proof {
            assert(out@ =~= molecular_name(params.combination@, params.geometry, params.bonding));
        }
        out
    }
}

} // verus!
