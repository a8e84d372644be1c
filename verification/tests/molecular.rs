use evanescence_core::orbital::molecular::{Element, Geometry, Lcao, LcaoAtom, Molecular};
use evanescence_core::orbital::quantum_numbers::Qn;
use evanescence_core::utils::replace_all;

fn qn(n: u32, l: u32, m: i32) -> Qn {
    Qn::new(n, l, m).unwrap()
}

fn atom(elem: Element, orbitals: &[Qn]) -> LcaoAtom {
    LcaoAtom { elem, orbitals: orbitals.to_vec() }
}

#[test]
fn molecular_orbital_types() {
    let mut lcao = Lcao { bonding: true, geometry: Geometry::Pi, combination: vec![] };
    assert_eq!(Molecular::orbital_type(&lcao), "π");
    lcao.bonding = false;
    assert_eq!(Molecular::orbital_type(&lcao), "π*");
    lcao.geometry = Geometry::Sigma;
    assert_eq!(Molecular::orbital_type(&lcao), "σ*");
}

#[test]
fn molecular_names_same_element() {
    let h2 = Lcao {
        bonding: true,
        geometry: Geometry::Sigma,
        combination: vec![atom(Element::H, &[qn(1, 0, 0)]), atom(Element::H, &[qn(1, 0, 0)])],
    };
    assert_eq!(Molecular::name(&h2), "σ [1s<sub></sub> (H)]");
    let o2 = Lcao {
        bonding: false,
        geometry: Geometry::Pi,
        combination: vec![
            atom(Element::O, &[qn(2, 1, 1), qn(2, 1, -1)]),
            atom(Element::O, &[qn(2, 1, 1)]),
        ],
    };
    assert_eq!(Molecular::name(&o2), "π* [2p<sub>x</sub> + 2p<sub>y</sub> (O)]");
}

#[test]
fn molecular_names_different_elements() {
    let hf = Lcao {
        bonding: false,
        geometry: Geometry::Sigma,
        combination: vec![atom(Element::H, &[qn(1, 0, 0)]), atom(Element::F, &[qn(2, 1, 0)])],
    };
    assert_eq!(Molecular::name(&hf), "σ* [1s<sub></sub> (H) + 2p<sub>z</sub> (F)]");
}

#[test]
fn molecular_unique_atomic_orbitals() {
    let lcao = Lcao {
        bonding: true,
        geometry: Geometry::Sigma,
        combination: vec![
            atom(Element::N, &[qn(2, 0, 0), qn(2, 1, 0), qn(2, 0, 0)]),
            atom(Element::C, &[qn(2, 0, 0)]),
            atom(Element::N, &[qn(2, 1, 0)]),
        ],
    };
    assert_eq!(
        Molecular::unique_atomic_orbitals(&lcao),
        vec![(qn(2, 0, 0), Element::N), (qn(2, 1, 0), Element::N), (qn(2, 0, 0), Element::C)]
    );
    assert_eq!(Element::Ne.to_string(), "Ne");
    assert_eq!(Geometry::Pi.to_string(), "π");
}

#[test]
fn lcao_text_drops_subscript_tags() {
    let hf = Lcao {
        bonding: false,
        geometry: Geometry::Sigma,
        combination: vec![atom(Element::H, &[qn(1, 0, 0)]), atom(Element::F, &[qn(2, 1, 0)])],
    };
    assert_eq!(hf.to_string(), "σ* [1s  (H) + 2p z (F)]");
    assert_eq!(
        hf.to_string(),
        Molecular::name(&hf).replace("<sub>", " ").replace("</sub>", "")
    );
}

#[test]
fn replace_all_matches_the_standard_library() {
    for (s, pat, rep) in [
        ("a<sub>b</sub>", "<sub>", " "),
        ("aaaa", "aa", "b"),
        ("aaa", "aa", "b"),
        ("", "x", "y"),
        ("xyz", "xyzw", ""),
        ("ψ<sub>420</sub>", "</sub>", ""),
    ] {
        assert_eq!(replace_all(s, pat, rep), s.replace(pat, rep), "{s} {pat} {rep}");
    }
}
